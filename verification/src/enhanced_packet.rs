//! The Enhanced Packet block: interface reference, timestamps, captured and
//! original lengths, and sub-fields the configuration names for the owning
//! interface's link type.

use vstd::prelude::*;

use crate::baseblock::{spec_base_parse, spec_err_bv, BaseBlock};
use crate::loader::{spec_epb_entry, spec_link_name, Config, ConfigV};
use crate::pcapng::{
    lemma_sum_concat, spec_sections_of_vec, spec_title_of, sum_section_lens, BlockErrorKind,
    BlockV, PngBlock,
};
use crate::types::BlockTypes;
use crate::util::{le32, le_partial, read_le_partial, read_le_u32, spec_dec, u32_to_dec, u64_to_dec};

pub mod bluetooth_le_ll_with_phdr;

verus! {

/// An Enhanced Packet block.
pub struct EnhancedPacket {
    pub base: BaseBlock,
    pub interface_id: u32,
    pub timestamp_upper: u32,
    pub timestamp_lower: u32,
    pub captured_packet_length: u32,
    pub original_packet_length: u32,
    pub link_type: Option<u16>,
    pub sections_: Vec<(String, usize)>,
    pub link_type_str: String,
}

/// Sum of the byte lengths of a section table, accumulated from the front.
pub open spec fn spec_sizes_sum(s: Seq<(Seq<char>, int)>) -> int
    decreases s.len(),
{
    if s.len() == 0 {
        0
    } else {
        s[0].1 + spec_sizes_sum(s.drop_first())
    }
}

/// Extending a front prefix by one element adds that element's length.
pub proof fn lemma_sizes_take_succ(s: Seq<(Seq<char>, int)>, i: int)
    requires
        0 <= i < s.len(),
    ensures
        spec_sizes_sum(s.take(i + 1)) == spec_sizes_sum(s.take(i)) + s[i].1,
    decreases i,
{
    if i == 0 {
        assert(s.take(1) =~= seq![s[0]]);
        assert(seq![s[0]].drop_first() =~= Seq::<(Seq<char>, int)>::empty());
        assert(s.take(0) =~= Seq::<(Seq<char>, int)>::empty());
    } else {
        lemma_sizes_take_succ(s.drop_first(), i - 1);
        assert(s.take(i + 1).drop_first() =~= s.drop_first().take(i));
        assert(s.take(i).drop_first() =~= s.drop_first().take(i - 1));
        assert(s.drop_first()[i - 1] == s[i]);
    }
}

/// A table's front sum splits at any index.
pub proof fn lemma_sizes_split(s: Seq<(Seq<char>, int)>, i: int)
    requires
        0 <= i <= s.len(),
    ensures
        spec_sizes_sum(s) == spec_sizes_sum(s.take(i)) + spec_sizes_sum(s.skip(i)),
    decreases i,
{
    if i == 0 {
        assert(s.take(0) =~= Seq::<(Seq<char>, int)>::empty());
        assert(s.skip(0) =~= s);
    } else {
        lemma_sizes_split(s, i - 1);
        lemma_sizes_take_succ(s, i - 1);
        assert(s.skip(i - 1).drop_first() =~= s.skip(i));
        assert(s.skip(i - 1)[0] == s[i - 1]);
    }
}

/// A table of nonnegative lengths has a nonnegative sum.
pub proof fn lemma_sizes_nonneg(s: Seq<(Seq<char>, int)>)
    requires
        forall|k: int| 0 <= k < s.len() ==> s[k].1 >= 0,
    ensures
        spec_sizes_sum(s) >= 0,
    decreases s.len(),
{
    if s.len() > 0 {
        lemma_sizes_nonneg(s.drop_first());
    }
}

/// The configured sub-fields of one link type, labelled with the value each
/// holds in `raw`: entry `k` of `secs` spans `secs[k].1` bytes starting where
/// the previous entries end, and its label appends the little-endian value of
/// its first eight bytes.
pub open spec fn spec_sub_sections(
    secs: Seq<(Seq<char>, int)>,
    raw: Seq<u8>,
    off: int,
) -> Seq<(Seq<char>, int)>
    decreases secs.len(),
{
    if secs.len() == 0 {
        Seq::empty()
    } else {
        let sz = secs[0].1;
        let k = if sz < 8 { sz } else { 8 };
        seq![(secs[0].0 + " - "@ + spec_dec(le_partial(raw, off, k)), sz)]
            + spec_sub_sections(secs.drop_first(), raw, off + sz)
    }
}

/// Labelling the sub-fields does not change their total span.
pub proof fn lemma_sub_sections_sum(secs: Seq<(Seq<char>, int)>, raw: Seq<u8>, off: int)
    ensures
        sum_section_lens(spec_sub_sections(secs, raw, off)) == spec_sizes_sum(secs),
    decreases secs.len(),
{
    reveal_with_fuel(sum_section_lens, 3);
    if secs.len() > 0 {
        let sz = secs[0].1;
        let k = if sz < 8 { sz } else { 8 };
        let first = (secs[0].0 + " - "@ + spec_dec(le_partial(raw, off, k)), sz);
        lemma_sub_sections_sum(secs.drop_first(), raw, off + sz);
        lemma_sum_concat(seq![first], spec_sub_sections(secs.drop_first(), raw, off + sz));
        assert(seq![first].drop_last() =~= Seq::<(Seq<char>, int)>::empty());
    }
}

/// The section table of an Enhanced Packet block: fixed fields, configured
/// sub-fields, then the remaining packet data and options.
pub open spec fn spec_epb_sections(
    length: int,
    iface: int,
    tsu: int,
    tsl: int,
    cap: int,
    orig: int,
    subs: Seq<(Seq<char>, int)>,
    subsum: int,
) -> Seq<(Seq<char>, int)> {
    seq![
        ("Block Type"@, 4),
        ("Block Length"@, 4),
        ("Interface ID - "@ + spec_dec(iface), 4),
        ("Timestamp Upper - "@ + spec_dec(tsu), 4),
        ("Timestamp Lower - "@ + spec_dec(tsl), 4),
        ("Captured Packet Length - "@ + spec_dec(cap), 4),
        ("Original Packet Length - "@ + spec_dec(orig), 4),
    ] + subs + seq![
        ("Data"@, cap - subsum),
        ("Options"@, length - 32 - cap),
        ("Block Length"@, 4),
    ]
}

/// The Enhanced Packet table covers the declared length exactly.
pub proof fn lemma_epb_sections_sum(
    length: int,
    iface: int,
    tsu: int,
    tsl: int,
    cap: int,
    orig: int,
    subs: Seq<(Seq<char>, int)>,
    subsum: int,
)
    requires
        sum_section_lens(subs) == subsum,
    ensures
        sum_section_lens(spec_epb_sections(length, iface, tsu, tsl, cap, orig, subs, subsum))
            == length,
{
    reveal_with_fuel(sum_section_lens, 9);
    let pre = seq![
        ("Block Type"@, 4int),
        ("Block Length"@, 4int),
        ("Interface ID - "@ + spec_dec(iface), 4int),
        ("Timestamp Upper - "@ + spec_dec(tsu), 4int),
        ("Timestamp Lower - "@ + spec_dec(tsl), 4int),
        ("Captured Packet Length - "@ + spec_dec(cap), 4int),
        ("Original Packet Length - "@ + spec_dec(orig), 4int),
    ];
    let tail = seq![
        ("Data"@, cap - subsum),
        ("Options"@, length - 32 - cap),
        ("Block Length"@, 4int),
    ];
    lemma_sum_concat(pre + subs, tail);
    lemma_sum_concat(pre, subs);
    assert(sum_section_lens(pre) == 28) by {
        assert(pre.drop_last() =~= pre.take(6));
        assert(pre.take(6).drop_last() =~= pre.take(5));
        assert(pre.take(5).drop_last() =~= pre.take(4));
        assert(pre.take(4).drop_last() =~= pre.take(3));
        assert(pre.take(3).drop_last() =~= pre.take(2));
        assert(pre.take(2).drop_last() =~= pre.take(1));
        assert(pre.take(1).drop_last() =~= pre.take(0));
        assert(pre.take(0) =~= Seq::<(Seq<char>, int)>::empty());
    };
    assert(sum_section_lens(tail) == length - 28 - subsum) by {
        assert(tail.drop_last() =~= tail.take(2));
        assert(tail.take(2).drop_last() =~= tail.take(1));
        assert(tail.take(1).drop_last() =~= tail.take(0));
        assert(tail.take(0) =~= Seq::<(Seq<char>, int)>::empty());
    };
    assert(spec_epb_sections(length, iface, tsu, tsl, cap, orig, subs, subsum) == (pre + subs)
        + tail);
}

/// What decoding an Enhanced Packet block at the head of `data` yields,
/// given the link types of the interfaces seen so far and the configuration.
/// A declared length below the kind's fixed size of 32, a captured length
/// that overruns the block, or configured sub-fields that overrun the
/// captured span mark the block truncated.
pub open spec fn spec_epb_parse(
    data: Seq<u8>,
    id: u32,
    ifaces: Seq<u16>,
    cfg: ConfigV,
) -> (BlockV, int) {
    let br = spec_base_parse(data, id);
    let b = br.0;
    if b.error != BlockErrorKind::NoError {
        br
    } else if b.length < 32 {
        (spec_err_bv(id, b.block_type, b.length, BlockErrorKind::Truncated), 0)
    } else {
        let iface = le32(data, 8);
        let tsu = le32(data, 12);
        let tsl = le32(data, 16);
        let cap = le32(data, 20);
        let orig = le32(data, 24);
        let lt: Option<u16> = if iface < ifaces.len() {
            Option::Some(ifaces[iface])
        } else {
            Option::None
        };
        let cfgsecs = match lt {
            Option::Some(c) => match spec_epb_entry(cfg.enhanced_packets, c) {
                Option::Some(e) => e.sections,
                Option::None => Seq::empty(),
            },
            Option::None => Seq::empty(),
        };
        let subsum = spec_sizes_sum(cfgsecs);
        if cap > b.length - 32 || subsum > cap {
            (spec_err_bv(id, b.block_type, b.length, BlockErrorKind::Truncated), 0)
        } else {
            let lname = match lt {
                Option::Some(c) => spec_link_name(cfg.link_types, c),
                Option::None => "Unknown"@,
            };
            (
                BlockV {
                    sections: spec_epb_sections(
                        b.length,
                        iface,
                        tsu,
                        tsl,
                        cap,
                        orig,
                        spec_sub_sections(cfgsecs, b.raw, 28),
                        subsum,
                    ),
                    title: b.title + " - "@ + lname,
                    ..b
                },
                br.1,
            )
        }
    }
}

impl EnhancedPacket {
    /// Bytes of the fixed parts: generic framing plus interface id,
    /// timestamps and the two packet lengths.
    pub const SIZE: usize = 32;

    /// Decodes an Enhanced Packet block at the head of `data`.  The owning
    /// interface's link type, looked up in `interfaces`, selects the
    /// configured sub-fields and the link-type name.
    pub fn parse(data: &[u8], id: u32, interfaces: &Vec<u16>, config: &Config) -> (r: (
        EnhancedPacket,
        usize,
    ))
        ensures
            r.0.inv(),
            r.0.bv() == spec_epb_parse(data@, id, interfaces@, config@).0,
            r.1 as int == spec_epb_parse(data@, id, interfaces@, config@).1,
            r.0.bv().error == BlockErrorKind::NoError ==> {
                &&& r.0.interface_id as int == le32(data@, 8)
                &&& r.0.timestamp_upper as int == le32(data@, 12)
                &&& r.0.timestamp_lower as int == le32(data@, 16)
                &&& r.0.captured_packet_length as int == le32(data@, 20)
                &&& r.0.original_packet_length as int == le32(data@, 24)
                &&& r.0.link_type == (if le32(data@, 8) < interfaces@.len() {
                    Option::Some(interfaces@[le32(data@, 8)])
                } else {
                    Option::None::<u16>
                })
                &&& r.0.link_type_str@ == (match r.0.link_type {
                    Option::Some(c) => spec_link_name(config@.link_types, c),
                    Option::None => "Unknown"@,
                })
            },
            r.0.bv().error != BlockErrorKind::NoError ==> {
                &&& r.0.interface_id == 0
                &&& r.0.timestamp_upper == 0
                &&& r.0.timestamp_lower == 0
                &&& r.0.captured_packet_length == 0
                &&& r.0.original_packet_length == 0
                &&& r.0.link_type == Option::None::<u16>
                &&& r.0.link_type_str@ == Seq::<char>::empty()
            },
    {
        let (mut base, advance) = BaseBlock::parse(data, id);
        if !matches!(base.error_, BlockErrorKind::NoError) {
            return (EnhancedPacket::bare(base), 0);
        }
        if base.length_ < 32 {
            base.error_ = BlockErrorKind::Truncated;
            base.raw_ = Vec::new();
            return (EnhancedPacket::bare(base), 0);
        }
        let interface_id = read_le_u32(data, 8);
        let timestamp_upper = read_le_u32(data, 12);
        let timestamp_lower = read_le_u32(data, 16);
        let captured_packet_length = read_le_u32(data, 20);
        let original_packet_length = read_le_u32(data, 24);
        let link_type: Option<u16> = if (interface_id as usize) < interfaces.len() {
            Some(interfaces[interface_id as usize])
        } else {
            None
        };
        let link_type_str = match link_type {
            Some(c) => config.link_type_name(c),
            None => String::from_str("Unknown"),
        };
        let entry = match link_type {
            Some(c) => config.enhanced_packet_entry(c),
            None => None,
        };
        let ghost cfgsecs: Seq<(Seq<char>, int)> = match entry {
            Option::Some(e) => e@.sections,
            Option::None => Seq::empty(),
        };
        if captured_packet_length > base.length_ - 32 {
            proof {
                lemma_sizes_nonneg(cfgsecs);
            }
            base.error_ = BlockErrorKind::Truncated;
            base.raw_ = Vec::new();
            return (EnhancedPacket::bare(base), 0);
        }
        // First pass over the configured sub-fields: their total span, and
        // whether it overruns the captured length.
        let cap64: u64 = captured_packet_length as u64;
        let mut subs_total: u64 = 0;
        let mut exceeded = false;
        if let Some(e) = entry {
            proof {
                assert(cfgsecs.take(0) =~= Seq::<(Seq<char>, int)>::empty());
            }
            let n = e.sections.len();
            for i in 0..n
                invariant
                    n == e.sections@.len(),
                    cfgsecs == e@.sections,
                    cap64 == captured_packet_length,
                    !exceeded ==> subs_total as int == spec_sizes_sum(cfgsecs.take(i as int))
                        && subs_total <= cap64,
                    exceeded ==> spec_sizes_sum(cfgsecs) > cap64,
            {
                let sz64 = e.sections[i].1 as u64;
                proof {
                    lemma_sizes_take_succ(cfgsecs, i as int);
                }
                if !exceeded {
                    if sz64 > cap64 || subs_total > cap64 - sz64 {
                        exceeded = true;
                        proof {
                            lemma_sizes_split(cfgsecs, i as int + 1);
                            assert(forall|k: int|
                                0 <= k < cfgsecs.skip(i as int + 1).len()
                                    ==> (#[trigger] cfgsecs.skip(i as int + 1)[k]).1 >= 0);
                            lemma_sizes_nonneg(cfgsecs.skip(i as int + 1));
                        }
                    } else {
                        subs_total = subs_total + sz64;
                    }
                }
            }
            proof {
                assert(cfgsecs.take(n as int) =~= cfgsecs);
            }
        }
        if exceeded {
            base.error_ = BlockErrorKind::Truncated;
            base.raw_ = Vec::new();
            return (EnhancedPacket::bare(base), 0);
        }
        // Second pass: label each configured sub-field with the value its
        // bytes hold.
        let mut subs_vec: Vec<(String, usize)> = Vec::new();
        let mut off: usize = 28;
        proof {
            assert(cfgsecs.skip(0) =~= cfgsecs);
            assert(cfgsecs.take(0) =~= Seq::<(Seq<char>, int)>::empty());
            assert(spec_sections_of_vec(subs_vec@) =~= Seq::<(Seq<char>, int)>::empty());
            assert(Seq::<(Seq<char>, int)>::empty() + spec_sub_sections(cfgsecs, base.raw_@, 28)
                =~= spec_sub_sections(cfgsecs, base.raw_@, 28));
        }
        if let Some(e) = entry {
            let n = e.sections.len();
            for i in 0..n
                invariant
                    n == e.sections@.len(),
                    cfgsecs == e@.sections,
                    cap64 == captured_packet_length,
                    base.error_ == BlockErrorKind::NoError,
                    base.inv(),
                    base.length_ >= 32,
                    captured_packet_length <= base.length_ - 32,
                    spec_sizes_sum(cfgsecs) <= cap64,
                    off as int == 28 + spec_sizes_sum(cfgsecs.take(i as int)),
                    off <= 28 + cap64,
                    spec_sub_sections(cfgsecs, base.raw_@, 28) == spec_sections_of_vec(subs_vec@)
                        + spec_sub_sections(cfgsecs.skip(i as int), base.raw_@, off as int),
            {
                let sz = e.sections[i].1;
                let k = if sz < 8 { sz } else { 8 };
                proof {
                    lemma_sizes_take_succ(cfgsecs, i as int);
                    lemma_sizes_split(cfgsecs, i as int + 1);
                    assert(forall|j: int|
                        0 <= j < cfgsecs.skip(i as int + 1).len()
                            ==> (#[trigger] cfgsecs.skip(i as int + 1)[j]).1 >= 0);
                    lemma_sizes_nonneg(cfgsecs.skip(i as int + 1));
                    assert(off + sz <= 28 + cap64);
                    assert(28 + cap64 <= base.length_);
                }
                let value = read_le_partial(base.raw_.as_slice(), off, k);
                let label = e.sections[i].0.clone().concat(" - ").concat(u64_to_dec(value).as_str());
                let ghost old_subs = subs_vec@;
                subs_vec.push((label, sz));
                proof {
                    assert(cfgsecs.skip(i as int)[0] == cfgsecs[i as int]);
                    assert(cfgsecs.skip(i as int).drop_first() =~= cfgsecs.skip(i as int + 1));
                    assert(spec_sections_of_vec(subs_vec@) =~= spec_sections_of_vec(old_subs)
                        + seq![(label@, sz as int)]);
                    assert(spec_sections_of_vec(old_subs) + (seq![(label@, sz as int)]
                        + spec_sub_sections(
                            cfgsecs.skip(i as int + 1),
                            base.raw_@,
                            off + sz,
                        )) =~= (spec_sections_of_vec(old_subs) + seq![(label@, sz as int)])
                        + spec_sub_sections(cfgsecs.skip(i as int + 1), base.raw_@, off + sz));
                }
                off = off + sz;
            }
            proof {
                assert(cfgsecs.skip(n as int) =~= Seq::<(Seq<char>, int)>::empty());
                assert(spec_sections_of_vec(subs_vec@) + Seq::<(Seq<char>, int)>::empty()
                    =~= spec_sections_of_vec(subs_vec@));
            }
        }
        proof {
            lemma_sub_sections_sum(cfgsecs, base.raw_@, 28);
        }
        // Assemble the full table.
        let mut v: Vec<(String, usize)> = Vec::new();
        v.push((String::from_str("Block Type"), 4));
        v.push((String::from_str("Block Length"), 4));
        v.push((String::from_str("Interface ID - ").concat(u32_to_dec(interface_id).as_str()), 4));
        v.push((
            String::from_str("Timestamp Upper - ").concat(u32_to_dec(timestamp_upper).as_str()),
            4,
        ));
        v.push((
            String::from_str("Timestamp Lower - ").concat(u32_to_dec(timestamp_lower).as_str()),
            4,
        ));
        v.push((
            String::from_str("Captured Packet Length - ").concat(
                u32_to_dec(captured_packet_length).as_str(),
            ),
            4,
        ));
        v.push((
            String::from_str("Original Packet Length - ").concat(
                u32_to_dec(original_packet_length).as_str(),
            ),
            4,
        ));
        let ghost subs_view = spec_sections_of_vec(subs_vec@);
        v.append(&mut subs_vec);
        v.push((String::from_str("Data"), (captured_packet_length as usize) - (subs_total as usize)));
        v.push((
            String::from_str("Options"),
            (base.length_ as usize) - 32 - (captured_packet_length as usize),
        ));
        v.push((String::from_str("Block Length"), 4));
        proof {
            assert(spec_sections_of_vec(v@) =~= spec_epb_sections(
                base.length_ as int,
                interface_id as int,
                timestamp_upper as int,
                timestamp_lower as int,
                captured_packet_length as int,
                original_packet_length as int,
                spec_sub_sections(cfgsecs, base.raw_@, 28),
                spec_sizes_sum(cfgsecs),
            ));
            lemma_epb_sections_sum(
                base.length_ as int,
                interface_id as int,
                timestamp_upper as int,
                timestamp_lower as int,
                captured_packet_length as int,
                original_packet_length as int,
                spec_sub_sections(cfgsecs, base.raw_@, 28),
                spec_sizes_sum(cfgsecs),
            );
        }
        (
            EnhancedPacket {
                base,
                interface_id,
                timestamp_upper,
                timestamp_lower,
                captured_packet_length,
                original_packet_length,
                link_type,
                sections_: v,
                link_type_str,
            },
            advance,
        )
    }

    /// An Enhanced Packet whose base could not be decoded: only the generic
    /// framing fields are meaningful.
    fn bare(base: BaseBlock) -> (r: EnhancedPacket)
        requires
            base.error_ != BlockErrorKind::NoError,
        ensures
            r.base == base,
            r.sections_@ =~= Seq::<(String, usize)>::empty(),
            r.interface_id == 0,
            r.timestamp_upper == 0,
            r.timestamp_lower == 0,
            r.captured_packet_length == 0,
            r.original_packet_length == 0,
            r.link_type == Option::None::<u16>,
            r.link_type_str@ == Seq::<char>::empty(),
    {
        EnhancedPacket {
            base,
            interface_id: 0,
            timestamp_upper: 0,
            timestamp_lower: 0,
            captured_packet_length: 0,
            original_packet_length: 0,
            link_type: None,
            sections_: Vec::new(),
            link_type_str: String::new(),
        }
    }
}

impl PngBlock for EnhancedPacket {
    open spec fn bv(&self) -> BlockV {
        if self.base.error_ == BlockErrorKind::NoError {
            BlockV {
                sections: spec_sections_of_vec(self.sections_@),
                title: spec_title_of(self.base.id_, self.base.block_type_) + " - "@
                    + self.link_type_str@,
                ..self.base.bv()
            }
        } else {
            BlockV { sections: Seq::empty(), ..self.base.bv() }
        }
    }

    open spec fn inv(&self) -> bool {
        &&& self.base.inv()
        &&& self.base.error_ == BlockErrorKind::NoError ==> {
            &&& self.base.length_ >= 32
            &&& sum_section_lens(spec_sections_of_vec(self.sections_@))
                == self.base.length_ as int
        }
    }

    fn rows(&self, width: u16) -> (r: u64) {
        self.base.rows(width)
    }

    fn sections(&self) -> (r: Vec<(String, usize)>) {
        let mut v: Vec<(String, usize)> = Vec::new();
        let n = self.sections_.len();
        for i in 0..n
            invariant
                n == self.sections_@.len(),
                v@.len() == i,
                forall|k: int| 0 <= k < i ==> v@[k] == self.sections_@[k],
        {
            v.push((self.sections_[i].0.clone(), self.sections_[i].1));
        }
        proof {
            assert(v@ =~= self.sections_@);
        }
        v
    }

    fn error(&self) -> (r: BlockErrorKind) {
        self.base.error_
    }

    fn id(&self) -> (r: u32) {
        self.base.id_
    }

    fn length(&self) -> (r: usize) {
        self.base.length_ as usize
    }

    fn block_type(&self) -> (r: BlockTypes) {
        self.base.block_type_
    }

    fn title_line(&self) -> (r: String) {
        let t = self.base.title_line();
        if matches!(self.base.error_, BlockErrorKind::NoError) {
            t.concat(" - ").concat(self.link_type_str.as_str())
        } else {
            t
        }
    }

    proof fn inv_properties(&self) {
    }

    fn raw(&self) -> (r: &Vec<u8>) {
        &self.base.raw_
    }
}

} // verus!
