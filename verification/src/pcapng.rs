//! The block model: error states, the capability interface shared by all
//! block kinds, the mathematical model of a decoded block, and the decoder
//! that turns a raw buffer into a sequence of typed blocks.

use vstd::prelude::*;
use vstd::slice::slice_subrange;

use crate::baseblock::{spec_base_parse, BaseBlock};
use crate::enhanced_packet::{spec_epb_parse, EnhancedPacket};
use crate::interface_description::{spec_id_parse, InterfaceDescription};
use crate::loader::{Config, ConfigV};
use crate::section_header::{spec_sh_parse, SectionHeader};
use crate::types::{block_types_of, spec_block_types_of, BlockTypes, Rect};
use crate::util::{le16, le32, push_char, read_le_u32, spec_dec, u32_to_dec};

verus! {

/// Decode state of a block: intact, declared with length zero, or cut short
/// (header unreadable, length below the fixed minimum, or bytes missing).
#[derive(Clone, Copy, Debug, PartialEq, Eq, Structural)]
pub enum BlockErrorKind {
    NoError,
    ZeroLength,
    Truncated,
}

/// Mathematical model of one decoded block.
#[verifier::ext_equal]
pub ghost struct BlockV {
    /// Dense, 0-based position in file order.
    pub id: u32,
    /// The kind selected by the block's type tag.
    pub block_type: BlockTypes,
    /// The declared total length of the block.
    pub length: int,
    /// Decode state; everything below is meaningful only when `NoError`.
    pub error: BlockErrorKind,
    /// The block's bytes, header and trailer included.
    pub raw: Seq<u8>,
    /// The section table: ordered (label, byte length) pairs covering `raw`.
    pub sections: Seq<(Seq<char>, int)>,
    /// The one-line heading shown above the block's bytes.
    pub title: Seq<char>,
}

/// Sum of the byte lengths of a section table.
pub open spec fn sum_section_lens(s: Seq<(Seq<char>, int)>) -> int
    decreases s.len(),
{
    if s.len() == 0 {
        0
    } else {
        sum_section_lens(s.drop_last()) + s.last().1
    }
}

/// A table's sum splits over concatenation.
pub proof fn lemma_sum_concat(a: Seq<(Seq<char>, int)>, b: Seq<(Seq<char>, int)>)
    ensures
        sum_section_lens(a + b) == sum_section_lens(a) + sum_section_lens(b),
    decreases b.len(),
{
    if b.len() == 0 {
        assert(a + b =~= a);
    } else {
        assert((a + b).drop_last() =~= a + b.drop_last());
        lemma_sum_concat(a, b.drop_last());
        assert((a + b).last() == b.last());
    }
}

/// A table's sum splits around any one entry.
pub proof fn lemma_sum_split_at(s: Seq<(Seq<char>, int)>, i: int)
    requires
        0 <= i < s.len(),
    ensures
        sum_section_lens(s) == sum_section_lens(s.take(i)) + s[i].1 + sum_section_lens(
            s.skip(i + 1),
        ),
{
    reveal_with_fuel(sum_section_lens, 3);
    assert(s =~= (s.take(i) + seq![s[i]]) + s.skip(i + 1));
    lemma_sum_concat(s.take(i) + seq![s[i]], s.skip(i + 1));
    lemma_sum_concat(s.take(i), seq![s[i]]);
    assert(seq![s[i]].drop_last() =~= Seq::<(Seq<char>, int)>::empty());
}

/// The generic section table covers the declared length exactly.
pub proof fn lemma_base_sections_sum(length: int)
    ensures
        sum_section_lens(spec_base_sections(length)) == length,
{
    reveal_with_fuel(sum_section_lens, 6);
    let s = spec_base_sections(length);
    assert(s.drop_last() =~= seq![("Block Type"@, 4int), ("Block Length"@, 4int), ("Data"@, length - 12)]);
    assert(s.drop_last().drop_last() =~= seq![("Block Type"@, 4int), ("Block Length"@, 4int)]);
    assert(s.drop_last().drop_last().drop_last() =~= seq![("Block Type"@, 4int)]);
    assert(s.drop_last().drop_last().drop_last().drop_last() =~= Seq::<(Seq<char>, int)>::empty());
}

/// Bytes each display row holds: three columns (two digits and a separator)
/// per byte.
pub open spec fn spec_bytes_per_row(width: int) -> int {
    (width + 1) / 3
}

/// Rows a block occupies when drawn in full at `width`: a single line for a
/// block in error, otherwise one title line plus the wrapped byte rows.
pub open spec fn spec_rows(bv: BlockV, width: int) -> int {
    if bv.error != BlockErrorKind::NoError {
        1
    } else {
        crate::util::spec_div_ceil(bv.length, spec_bytes_per_row(width)) + 1
    }
}

/// The title common to every kind: the block's id, then the kind name.
pub open spec fn spec_title_of(id: u32, t: BlockTypes) -> Seq<char> {
    spec_dec(id as int) + ": "@ + crate::types::spec_block_type_name(t)
}

/// The section table of a generic block: header, opaque data, trailer.
pub open spec fn spec_base_sections(length: int) -> Seq<(Seq<char>, int)> {
    seq![
        ("Block Type"@, 4),
        ("Block Length"@, 4),
        ("Data"@, length - 12),
        ("Block Length"@, 4),
    ]
}

/// The section labels of a tuple vector, as the model sees them.
pub open spec fn spec_sections_of_vec(v: Seq<(String, usize)>) -> Seq<(Seq<char>, int)> {
    Seq::new(v.len(), |i: int| (v[i].0@, v[i].1 as int))
}

/// The capability interface every block kind offers: row counts, the section
/// table, identity and raw bytes.  `bv` is the block's mathematical model and
/// `inv` its well-formedness; both are fixed by each implementing kind.
pub trait PngBlock: Sized {
    /// The model of this block.
    spec fn bv(&self) -> BlockV;

    /// Well-formedness: what the constructors establish and all methods rely
    /// on.
    spec fn inv(&self) -> bool;

    /// Rows the block occupies when drawn in full at `width`.
    fn rows(&self, width: u16) -> (r: u64)
        requires
            self.inv(),
            width >= 3,
        ensures
            r as int == spec_rows(self.bv(), width as int),
    ;

    /// The ordered (label, byte length) section table.  Its lengths sum
    /// exactly to the block's declared length.
    fn sections(&self) -> (r: Vec<(String, usize)>)
        requires
            self.inv(),
            self.bv().error == BlockErrorKind::NoError,
        ensures
            spec_sections_of_vec(r@) == self.bv().sections,
            sum_section_lens(self.bv().sections) == self.bv().length,
    ;

    /// The block's decode state.
    fn error(&self) -> (r: BlockErrorKind)
        ensures
            r == self.bv().error,
    ;

    /// The block's dense 0-based id.
    fn id(&self) -> (r: u32)
        ensures
            r == self.bv().id,
    ;

    /// The declared total length.
    fn length(&self) -> (r: usize)
        requires
            self.inv(),
        ensures
            r as int == self.bv().length,
    ;

    /// The kind selected by the block's type tag.
    fn block_type(&self) -> (r: BlockTypes)
        ensures
            r == self.bv().block_type,
    ;

    /// The one-line heading shown above the block's bytes.
    fn title_line(&self) -> (r: String)
        requires
            self.inv(),
        ensures
            r@ == self.bv().title,
    ;

    /// The block's raw bytes.
    fn raw(&self) -> (r: &Vec<u8>)
        ensures
            r@ == self.bv().raw,
    ;

    /// Well-formedness ties the model together: an intact block's bytes
    /// span exactly its declared length, which covers at least the fixed
    /// framing and fits the 32-bit length field.
    proof fn inv_properties(&self)
        requires
            self.inv(),
        ensures
            self.bv().error == BlockErrorKind::NoError ==> {
                &&& self.bv().raw.len() == self.bv().length
                &&& self.bv().length >= 12
                &&& self.bv().length <= u32::MAX
            },
    ;
}

/// One decoded block of any kind.
pub enum Block {
    Base(BaseBlock),
    SectionHeader(SectionHeader),
    InterfaceDescription(InterfaceDescription),
    EnhancedPacket(EnhancedPacket),
}

impl PngBlock for Block {
    open spec fn bv(&self) -> BlockV {
        match self {
            Block::Base(b) => b.bv(),
            Block::SectionHeader(b) => b.bv(),
            Block::InterfaceDescription(b) => b.bv(),
            Block::EnhancedPacket(b) => b.bv(),
        }
    }

    open spec fn inv(&self) -> bool {
        match self {
            Block::Base(b) => b.inv(),
            Block::SectionHeader(b) => b.inv(),
            Block::InterfaceDescription(b) => b.inv(),
            Block::EnhancedPacket(b) => b.inv(),
        }
    }

    fn rows(&self, width: u16) -> (r: u64) {
        match self {
            Block::Base(b) => b.rows(width),
            Block::SectionHeader(b) => b.rows(width),
            Block::InterfaceDescription(b) => b.rows(width),
            Block::EnhancedPacket(b) => b.rows(width),
        }
    }

    fn sections(&self) -> (r: Vec<(String, usize)>) {
        match self {
            Block::Base(b) => b.sections(),
            Block::SectionHeader(b) => b.sections(),
            Block::InterfaceDescription(b) => b.sections(),
            Block::EnhancedPacket(b) => b.sections(),
        }
    }

    fn error(&self) -> (r: BlockErrorKind) {
        match self {
            Block::Base(b) => b.error(),
            Block::SectionHeader(b) => b.error(),
            Block::InterfaceDescription(b) => b.error(),
            Block::EnhancedPacket(b) => b.error(),
        }
    }

    fn id(&self) -> (r: u32) {
        match self {
            Block::Base(b) => b.id(),
            Block::SectionHeader(b) => b.id(),
            Block::InterfaceDescription(b) => b.id(),
            Block::EnhancedPacket(b) => b.id(),
        }
    }

    fn length(&self) -> (r: usize) {
        match self {
            Block::Base(b) => b.length(),
            Block::SectionHeader(b) => b.length(),
            Block::InterfaceDescription(b) => b.length(),
            Block::EnhancedPacket(b) => b.length(),
        }
    }

    fn block_type(&self) -> (r: BlockTypes) {
        match self {
            Block::Base(b) => b.block_type(),
            Block::SectionHeader(b) => b.block_type(),
            Block::InterfaceDescription(b) => b.block_type(),
            Block::EnhancedPacket(b) => b.block_type(),
        }
    }

    fn title_line(&self) -> (r: String) {
        match self {
            Block::Base(b) => b.title_line(),
            Block::SectionHeader(b) => b.title_line(),
            Block::InterfaceDescription(b) => b.title_line(),
            Block::EnhancedPacket(b) => b.title_line(),
        }
    }

    proof fn inv_properties(&self) {
        match self {
            Block::Base(b) => b.inv_properties(),
            Block::SectionHeader(b) => b.inv_properties(),
            Block::InterfaceDescription(b) => b.inv_properties(),
            Block::EnhancedPacket(b) => b.inv_properties(),
        }
    }

    fn raw(&self) -> (r: &Vec<u8>) {
        match self {
            Block::Base(b) => b.raw(),
            Block::SectionHeader(b) => b.raw(),
            Block::InterfaceDescription(b) => b.raw(),
            Block::EnhancedPacket(b) => b.raw(),
        }
    }
}

/// The models of a sequence of blocks.
pub open spec fn blocks_view(s: Seq<Block>) -> Seq<BlockV> {
    Seq::new(s.len(), |i: int| s[i].bv())
}

/// The link types of the intact Interface Description blocks of `blocks`,
/// in order: the interface registry a forward decode has built after them.
pub open spec fn spec_iface_seq(blocks: Seq<Block>) -> Seq<u16>
    decreases blocks.len(),
{
    if blocks.len() == 0 {
        Seq::empty()
    } else {
        spec_iface_seq(blocks.drop_last()) + (match blocks.last() {
            Block::InterfaceDescription(d) => {
                if d.base.error_ == BlockErrorKind::NoError {
                    seq![d.link_type]
                } else {
                    Seq::<u16>::empty()
                }
            },
            _ => Seq::<u16>::empty(),
        })
    }
}

/// Block `k` of `blocks`, if it is an intact Enhanced Packet, stores the
/// link type of the interface its `interface_id` names — the
/// `interface_id`-th Interface Description block before it — and `None`
/// when no such interface exists.
pub open spec fn spec_epb_links_registry(blocks: Seq<Block>, k: int) -> bool {
    blocks[k] matches Block::EnhancedPacket(e) ==> (e.base.error_ == BlockErrorKind::NoError
        ==> e.link_type == (if (e.interface_id as int) < spec_iface_seq(blocks.take(k)).len() {
            Option::Some(spec_iface_seq(blocks.take(k))[e.interface_id as int])
        } else {
            Option::None::<u16>
        }))
}

/// What decoding yields from offset `pos` on, with `id` the next block id
/// and `ifaces` the link types of the interfaces seen so far.  Decoding
/// stops after the first block in error, and when the id space is exhausted.
pub open spec fn spec_decode_from(
    data: Seq<u8>,
    cfg: ConfigV,
    pos: int,
    id: u32,
    ifaces: Seq<u16>,
) -> Seq<BlockV>
    decreases data.len() - pos,
{
    if pos < 0 || pos >= data.len() {
        Seq::empty()
    } else {
        let rest = data.skip(pos);
        if rest.len() < 8 {
            seq![spec_base_parse(rest, id).0]
        } else {
            let t = spec_block_types_of(le32(rest, 0));
            let br = match t {
                BlockTypes::SectionHeaderBlock => spec_sh_parse(rest, id),
                BlockTypes::InterfaceDescriptionBlock => spec_id_parse(rest, id, cfg.link_types),
                BlockTypes::EnhancedPacketBlock => spec_epb_parse(rest, id, ifaces, cfg),
                BlockTypes::Unknown => spec_base_parse(rest, id),
            };
            let b = br.0;
            if b.error != BlockErrorKind::NoError {
                seq![b]
            } else if id == u32::MAX {
                seq![b]
            } else {
                let ifaces2 = if t == BlockTypes::InterfaceDescriptionBlock {
                    ifaces.push(le16(rest, 8) as u16)
                } else {
                    ifaces
                };
                seq![b] + spec_decode_from(data, cfg, pos + br.1, (id + 1) as u32, ifaces2)
            }
        }
    }
}

/// The full decode of a buffer.
pub open spec fn spec_decode(data: Seq<u8>, cfg: ConfigV) -> Seq<BlockV> {
    spec_decode_from(data, cfg, 0, 0, Seq::empty())
}

/// Every block that one decode step can yield has a section table that sums
/// to its declared length, unless its error marker is set.
proof fn lemma_decode_from_sections_sum(
    data: Seq<u8>,
    cfg: ConfigV,
    pos: int,
    id: u32,
    ifaces: Seq<u16>,
)
    ensures
        forall|k: int|
            0 <= k < spec_decode_from(data, cfg, pos, id, ifaces).len() ==> {
                let b = #[trigger] spec_decode_from(data, cfg, pos, id, ifaces)[k];
                b.error == BlockErrorKind::NoError ==> sum_section_lens(b.sections) == b.length
            },
    decreases data.len() - pos,
{
    if pos < 0 || pos >= data.len() {
    } else {
        let rest = data.skip(pos);
        if rest.len() < 8 {
        } else {
            let t = spec_block_types_of(le32(rest, 0));
            let br = match t {
                BlockTypes::SectionHeaderBlock => spec_sh_parse(rest, id),
                BlockTypes::InterfaceDescriptionBlock => spec_id_parse(rest, id, cfg.link_types),
                BlockTypes::EnhancedPacketBlock => spec_epb_parse(rest, id, ifaces, cfg),
                BlockTypes::Unknown => spec_base_parse(rest, id),
            };
            let b = br.0;
            if b.error == BlockErrorKind::NoError {
                match t {
                    BlockTypes::SectionHeaderBlock => {
                        crate::section_header::lemma_sh_sections_sum(b.length);
                    },
                    BlockTypes::InterfaceDescriptionBlock => {
                        let lt = le16(rest, 8) as u16;
                        crate::interface_description::lemma_id_sections_sum(
                            b.length,
                            crate::loader::spec_link_name(cfg.link_types, lt),
                            le32(rest, 12),
                        );
                    },
                    BlockTypes::EnhancedPacketBlock => {
                        let iface = le32(rest, 8);
                        let lt: Option<u16> = if iface < ifaces.len() {
                            Option::Some(ifaces[iface])
                        } else {
                            Option::None
                        };
                        let cfgsecs = match lt {
                            Option::Some(c) => match crate::loader::spec_epb_entry(
                                cfg.enhanced_packets,
                                c,
                            ) {
                                Option::Some(e) => e.sections,
                                Option::None => Seq::empty(),
                            },
                            Option::None => Seq::empty(),
                        };
                        let base = spec_base_parse(rest, id).0;
                        crate::enhanced_packet::lemma_sub_sections_sum(cfgsecs, base.raw, 28);
                        crate::enhanced_packet::lemma_epb_sections_sum(
                            b.length,
                            iface,
                            le32(rest, 12),
                            le32(rest, 16),
                            le32(rest, 20),
                            le32(rest, 24),
                            crate::enhanced_packet::spec_sub_sections(cfgsecs, base.raw, 28),
                            crate::enhanced_packet::spec_sizes_sum(cfgsecs),
                        );
                    },
                    BlockTypes::Unknown => {
                        lemma_base_sections_sum(b.length);
                    },
                }
                if id != u32::MAX {
                    let ifaces2 = if t == BlockTypes::InterfaceDescriptionBlock {
                        ifaces.push(le16(rest, 8) as u16)
                    } else {
                        ifaces
                    };
                    lemma_decode_from_sections_sum(data, cfg, pos + br.1, (id + 1) as u32, ifaces2);
                }
            }
        }
    }
}

/// The hexadecimal digit `d` as a character.
pub open spec fn spec_hex_digit(d: int) -> char {
    if d == 0 {
        '0'
    } else if d == 1 {
        '1'
    } else if d == 2 {
        '2'
    } else if d == 3 {
        '3'
    } else if d == 4 {
        '4'
    } else if d == 5 {
        '5'
    } else if d == 6 {
        '6'
    } else if d == 7 {
        '7'
    } else if d == 8 {
        '8'
    } else if d == 9 {
        '9'
    } else if d == 10 {
        'a'
    } else if d == 11 {
        'b'
    } else if d == 12 {
        'c'
    } else if d == 13 {
        'd'
    } else if d == 14 {
        'e'
    } else {
        'f'
    }
}

fn hex_digit_char(d: u8) -> (c: char)
    requires
        d < 16,
    ensures
        c == spec_hex_digit(d as int),
{
    match d {
        0 => '0',
        1 => '1',
        2 => '2',
        3 => '3',
        4 => '4',
        5 => '5',
        6 => '6',
        7 => '7',
        8 => '8',
        9 => '9',
        10 => 'a',
        11 => 'b',
        12 => 'c',
        13 => 'd',
        14 => 'e',
        _ => 'f',
    }
}

/// A byte as two hexadecimal digits.
pub open spec fn spec_hex_byte(b: int) -> Seq<char> {
    seq![spec_hex_digit(b / 16), spec_hex_digit(b % 16)]
}

/// Bytes as two-digit groups separated by single spaces: three columns per
/// byte but for the missing trailing separator.
pub open spec fn spec_hex_str(s: Seq<u8>) -> Seq<char>
    decreases s.len(),
{
    if s.len() == 0 {
        Seq::empty()
    } else if s.len() == 1 {
        spec_hex_byte(s[0] as int)
    } else {
        spec_hex_str(s.drop_last()) + seq![' '] + spec_hex_byte(s.last() as int)
    }
}

/// A byte as a printable character, or a dot.
pub open spec fn spec_ascii_glyph(b: u8) -> char {
    if 32 < b && b < 127 {
        b as char
    } else {
        '.'
    }
}

fn glyph_char(b: u8) -> (c: char)
    ensures
        c == spec_ascii_glyph(b),
{
    if b > 32 && b < 127 {
        b as char
    } else {
        '.'
    }
}

/// Bytes as printable-or-dot glyphs, each padded to the same three-column
/// rhythm as the hexadecimal form.
pub open spec fn spec_ascii_str(s: Seq<u8>) -> Seq<char>
    decreases s.len(),
{
    if s.len() == 0 {
        Seq::empty()
    } else if s.len() == 1 {
        seq![spec_ascii_glyph(s[0]), ' ']
    } else {
        spec_ascii_str(s.drop_last()) + seq![' ', spec_ascii_glyph(s.last()), ' ']
    }
}

/// Formats bytes as space-separated two-digit hexadecimal groups.
pub fn to_hex(s: &[u8]) -> (r: String)
    ensures
        r@ == spec_hex_str(s@),
{
    let mut r = String::new();
    let n = s.len();
    proof {
        assert(s@.take(0) =~= Seq::<u8>::empty());
    }
    for i in 0..n
        invariant
            n == s@.len(),
            r@ == spec_hex_str(s@.take(i as int)),
    {
        if i > 0 {
            push_char(&mut r, ' ');
        }
        crate::util::push_char(&mut r, hex_digit_char(s[i] / 16));
        crate::util::push_char(&mut r, hex_digit_char(s[i] % 16));
        proof {
            assert(s@.take(i as int + 1).drop_last() =~= s@.take(i as int));
            assert(s@.take(i as int + 1).last() == s@[i as int]);
            assert(r@ =~= spec_hex_str(s@.take(i as int + 1)));
        }
    }
    proof {
        assert(s@.take(n as int) =~= s@);
    }
    r
}

/// Formats bytes as printable-or-dot glyphs in the same column rhythm as
/// the hexadecimal form.
pub fn to_ascii(s: &[u8]) -> (r: String)
    ensures
        r@ == spec_ascii_str(s@),
{
    let mut r = String::new();
    let n = s.len();
    proof {
        assert(s@.take(0) =~= Seq::<u8>::empty());
    }
    for i in 0..n
        invariant
            n == s@.len(),
            r@ == spec_ascii_str(s@.take(i as int)),
    {
        if i > 0 {
            push_char(&mut r, ' ');
        }
        crate::util::push_char(&mut r, glyph_char(s[i]));
        crate::util::push_char(&mut r, ' ');
        proof {
            assert(s@.take(i as int + 1).drop_last() =~= s@.take(i as int));
            assert(s@.take(i as int + 1).last() == s@[i as int]);
            assert(r@ =~= spec_ascii_str(s@.take(i as int + 1)));
        }
    }
    proof {
        assert(s@.take(n as int) =~= s@);
    }
    r
}

/// Every decoded block that is not in error has a section table whose
/// lengths sum exactly to the block's declared length, whatever kinds and
/// configured sub-fields the buffer selects.
pub proof fn lemma_decoded_sections_cover_length(data: Seq<u8>, cfg: ConfigV, k: int)
    requires
        0 <= k < spec_decode(data, cfg).len(),
        spec_decode(data, cfg)[k].error == BlockErrorKind::NoError,
    ensures
        sum_section_lens(spec_decode(data, cfg)[k].sections) == spec_decode(data, cfg)[k].length,
{
    lemma_decode_from_sections_sum(data, cfg, 0, 0, Seq::empty());
}

/// The two sum orders agree: a section table sums the same from either end.
pub proof fn lemma_sum_lens_eq_sizes_sum(s: Seq<(Seq<char>, int)>)
    ensures
        sum_section_lens(s) == crate::enhanced_packet::spec_sizes_sum(s),
    decreases s.len(),
{
    reveal_with_fuel(sum_section_lens, 3);
    if s.len() > 0 {
        lemma_sum_lens_eq_sizes_sum(s.drop_first());
        lemma_sum_concat(seq![s[0]], s.drop_first());
        assert(seq![s[0]] + s.drop_first() =~= s);
        assert(seq![s[0]].drop_last() =~= Seq::<(Seq<char>, int)>::empty());
    }
}

/// Style of one rendered span.
#[derive(Clone, Copy, Debug, PartialEq, Eq, Structural)]
pub enum SpanStyle {
    /// A block heading, drawn emphasized.
    Title,
    /// Block bytes, colored by the owning section's index into the
    /// foreground and background palettes.
    Body { fg: u8, bg: u8 },
    /// A separator between sections, drawn unstyled.
    Plain,
}

/// One run of styled text in a rendered line.
#[derive(Debug, PartialEq, Eq)]
pub struct TextSpan {
    pub text: String,
    pub style: SpanStyle,
}

/// Model of a [`TextSpan`].
#[verifier::ext_equal]
pub ghost struct SpanV {
    pub text: Seq<char>,
    pub style: SpanStyle,
}

impl View for TextSpan {
    type V = SpanV;

    open spec fn view(&self) -> SpanV {
        SpanV { text: self.text@, style: self.style }
    }
}

/// The models of the spans of one rendered line.
pub open spec fn spec_line_view(l: Seq<TextSpan>) -> Seq<SpanV> {
    Seq::new(l.len(), |i: int| l[i]@)
}

/// The glyphs of a byte range in the chosen mode.
pub open spec fn spec_glyphs(bytes: Seq<u8>, ascii: bool) -> Seq<char> {
    if ascii {
        spec_ascii_str(bytes)
    } else {
        spec_hex_str(bytes)
    }
}

/// The heading shown for a block in error.
pub open spec fn spec_error_title(bv: BlockV) -> Seq<char> {
    spec_dec(bv.id as int) + (match bv.error {
        BlockErrorKind::ZeroLength => ": ERROR Block has zero length"@,
        BlockErrorKind::Truncated => ": ERROR Block is truncated"@,
        BlockErrorKind::NoError => Seq::empty(),
    })
}

/// The single span of a block's heading line: the error heading for a block
/// in error, its title otherwise.
pub open spec fn spec_title_span(bv: BlockV) -> SpanV {
    SpanV {
        text: if bv.error != BlockErrorKind::NoError {
            spec_error_title(bv)
        } else {
            bv.title
        },
        style: SpanStyle::Title,
    }
}

/// The clipped byte ranges of the sections that intersect the byte window
/// `[lo, hi)`: for each, the section's index and its range, walking the
/// table from section `idx` placed at byte offset `off`.
pub open spec fn spec_row_slices(
    secs: Seq<(Seq<char>, int)>,
    idx: int,
    off: int,
    lo: int,
    hi: int,
) -> Seq<(int, int, int)>
    decreases secs.len() - idx,
{
    if idx >= secs.len() || off >= hi {
        Seq::empty()
    } else {
        let sz = secs[idx].1;
        let s = if off > lo {
            off
        } else {
            lo
        };
        let e = if off + sz < hi {
            off + sz
        } else {
            hi
        };
        let rest = spec_row_slices(secs, idx + 1, off + sz, lo, hi);
        if e > s {
            seq![(idx, s, e)] + rest
        } else {
            rest
        }
    }
}

/// The spans the slices of one row produce: each slice's glyphs, colored by
/// its section index, a single-space separator before every span but the
/// first.
pub open spec fn spec_spans_of_slices(
    slices: Seq<(int, int, int)>,
    raw: Seq<u8>,
    ascii: bool,
    first: bool,
) -> Seq<SpanV>
    decreases slices.len(),
{
    if slices.len() == 0 {
        Seq::empty()
    } else {
        let sl = slices[0];
        let body = SpanV {
            text: spec_glyphs(raw.subrange(sl.1, sl.2), ascii),
            style: SpanStyle::Body { fg: (sl.0 % 5) as u8, bg: (sl.0 % 2) as u8 },
        };
        (if first {
            seq![body]
        } else {
            seq![SpanV { text: " "@, style: SpanStyle::Plain }, body]
        }) + spec_spans_of_slices(slices.drop_first(), raw, ascii, false)
    }
}

/// The spans of data row `row` of a block at `width`: the sections
/// intersecting the byte window `[row * bytes-per-row, (row + 1) *
/// bytes-per-row)`, clipped to the block's length.
pub open spec fn spec_row_spans(bv: BlockV, width: int, row: int, ascii: bool) -> Seq<SpanV> {
    let bpr = spec_bytes_per_row(width);
    let lo = row * bpr;
    let hi = if bv.length < lo + bpr {
        bv.length
    } else {
        lo + bpr
    };
    spec_spans_of_slices(spec_row_slices(bv.sections, 0, 0, lo, hi), bv.raw, ascii, true)
}

/// Rows of a block the viewport asks to draw: one for a folded block, its
/// full row count otherwise.
pub open spec fn spec_visible_rows(bv: BlockV, width: int, folded: bool) -> int {
    if folded {
        1
    } else {
        spec_rows(bv, width)
    }
}

/// The smaller of two values.
pub open spec fn spec_min(a: int, b: int) -> int {
    if a < b {
        a
    } else {
        b
    }
}

/// Rows the renderer consumes: the rows left below the hidden ones, clipped
/// to the area's height.
pub open spec fn spec_rows_drawn(bv: BlockV, width: int, folded: bool, hidden: int, height: int) -> int {
    spec_min(spec_visible_rows(bv, width, folded) - hidden, height)
}

fn title_span<B: PngBlock>(block: &B) -> (r: TextSpan)
    requires
        block.inv(),
    ensures
        r@ == spec_title_span(block.bv()),
{
    let text = match block.error() {
        BlockErrorKind::NoError => block.title_line(),
        BlockErrorKind::ZeroLength => u32_to_dec(block.id()).concat(": ERROR Block has zero length"),
        BlockErrorKind::Truncated => u32_to_dec(block.id()).concat(": ERROR Block is truncated"),
    };
    TextSpan { text, style: SpanStyle::Title }
}

/// Renders one block into a window of `area`: a heading line first — the
/// error heading for a block in error — then, unless the block is folded,
/// the byte rows from data row `hidden` on, one rendered line per row, until
/// the block or the area is exhausted.  Returns the rows consumed and their
/// lines, one vector of spans per row.
pub fn draw_block<B: PngBlock>(block: &B, area: Rect, hidden: u64, folded: bool, ascii: bool) -> (r: (
    u16,
    Vec<Vec<TextSpan>>,
))
    requires
        block.inv(),
        area.width >= 3,
        area.height >= 1,
        folded ==> hidden == 0,
        hidden < spec_visible_rows(block.bv(), area.width as int, folded),
    ensures
        r.0 as int == spec_rows_drawn(
            block.bv(),
            area.width as int,
            folded,
            hidden as int,
            area.height as int,
        ),
        r.1@.len() == r.0,
        spec_line_view(r.1@[0]@) == seq![spec_title_span(block.bv())],
        forall|i: int|
            1 <= i < r.0 ==> spec_line_view(#[trigger] r.1@[i]@) == spec_row_spans(
                block.bv(),
                area.width as int,
                hidden as int + i - 1,
                ascii,
            ),
{
    let ghost bv = block.bv();
    let visible: u64 = if folded {
        1
    } else {
        block.rows(area.width)
    };
    let left: u64 = visible - hidden;
    let n: u16 = if left < area.height as u64 {
        left as u16
    } else {
        area.height
    };
    let mut lines: Vec<Vec<TextSpan>> = Vec::new();
    let mut heading: Vec<TextSpan> = Vec::new();
    heading.push(title_span(block));
    proof {
        assert(spec_line_view(heading@) =~= seq![spec_title_span(bv)]);
    }
    lines.push(heading);
    if n > 1 {
        proof {
            // More than the single heading row: the block is intact and
            // unfolded.
            assert(bv.error == BlockErrorKind::NoError);
        }
        let sections = block.sections();
        let raw = block.raw();
        let bpr: u64 = ((area.width as u64) + 1) / 3;
        let ghost table = bv.sections;
        proof {
            block.inv_properties();
            lemma_sum_lens_eq_sizes_sum(table);
            assert(visible <= bv.length + 2) by (nonlinear_arith)
                requires
                    visible as int == crate::util::spec_div_ceil(bv.length, bpr as int) + 1,
                    bpr >= 1,
                    bv.length >= 0,
            ;
        }
        for i in 1..n
            invariant
                n > 1,
                bv == block.bv(),
                block.inv(),
                bv.error == BlockErrorKind::NoError,
                spec_sections_of_vec(sections@) == table,
                table == bv.sections,
                crate::enhanced_packet::spec_sizes_sum(table) == bv.length,
                raw@ == bv.raw,
                raw@.len() == bv.length,
                bv.length <= u32::MAX,
                bpr as int == spec_bytes_per_row(area.width as int),
                bpr >= 1,
                bpr <= 21846,
                hidden as int + n <= visible + 1,
                visible <= bv.length + 2,
                lines@.len() == i,
                spec_line_view(lines@[0]@) == seq![spec_title_span(bv)],
                forall|k: int|
                    1 <= k < i ==> spec_line_view(#[trigger] lines@[k]@) == spec_row_spans(
                        bv,
                        area.width as int,
                        hidden as int + k - 1,
                        ascii,
                    ),
        {
            let row: u64 = hidden + (i as u64) - 1;
            assert(row * bpr <= (bv.length + 2) * 21846) by (nonlinear_arith)
                requires
                    row <= bv.length + 2,
                    1 <= bpr <= 21846,
                    bv.length >= 0,
            ;
            let lo: u64 = row * bpr;
            let hi_full: u64 = lo + bpr;
            let length64: u64 = raw.len() as u64;
            let hi: u64 = if length64 < hi_full {
                length64
            } else {
                hi_full
            };
            let ghost target = spec_row_spans(bv, area.width as int, row as int, ascii);
            let mut spans: Vec<TextSpan> = Vec::new();
            let mut off: u64 = 0;
            let mut k: usize = 0;
            proof {
                assert(table.take(0) =~= Seq::<(Seq<char>, int)>::empty());
                assert(spec_line_view(spans@) =~= Seq::<SpanV>::empty());
                assert(spec_line_view(spans@) + spec_spans_of_slices(
                    spec_row_slices(table, 0, 0, lo as int, hi as int),
                    bv.raw,
                    ascii,
                    true,
                ) =~= target);
            }
            while k < sections.len() && off < hi
                invariant
                    sections@.len() == table.len(),
                    spec_sections_of_vec(sections@) == table,
                    crate::enhanced_packet::spec_sizes_sum(table) == bv.length,
                    raw@ == bv.raw,
                    raw@.len() == bv.length,
                    bv.length <= u32::MAX,
                    k <= table.len(),
                    hi <= bv.length,
                    off as int == crate::enhanced_packet::spec_sizes_sum(table.take(k as int)),
                    off <= bv.length,
                    target == spec_line_view(spans@) + spec_spans_of_slices(
                        spec_row_slices(table, k as int, off as int, lo as int, hi as int),
                        bv.raw,
                        ascii,
                        spans@.len() == 0,
                    ),
                decreases table.len() - k,
            {
                let sz64: u64 = sections[k].1 as u64;
                proof {
                    crate::enhanced_packet::lemma_sizes_take_succ(table, k as int);
                    crate::enhanced_packet::lemma_sizes_split(table, k as int + 1);
                    assert(forall|j: int|
                        0 <= j < table.skip(k as int + 1).len() ==> (#[trigger] table.skip(
                            k as int + 1,
                        )[j]).1 >= 0);
                    crate::enhanced_packet::lemma_sizes_nonneg(table.skip(k as int + 1));
                }
                let s_: u64 = if off > lo {
                    off
                } else {
                    lo
                };
                let e_: u64 = if off + sz64 < hi {
                    off + sz64
                } else {
                    hi
                };
                let ghost old_spans = spans@;
                if e_ > s_ {
                    let piece = slice_subrange(raw.as_slice(), s_ as usize, e_ as usize);
                    let text = if ascii {
                        to_ascii(piece)
                    } else {
                        to_hex(piece)
                    };
                    let fg: u8 = (k % 5) as u8;
                    let bg: u8 = (k % 2) as u8;
                    if spans.len() > 0 {
                        spans.push(TextSpan { text: String::from_str(" "), style: SpanStyle::Plain });
                    }
                    spans.push(TextSpan { text, style: SpanStyle::Body { fg, bg } });
                    proof {
                        if old_spans.len() == 0 {
                            assert(spec_line_view(spans@) =~= spec_line_view(old_spans) + seq![
                                SpanV {
                                    text: spec_glyphs(bv.raw.subrange(s_ as int, e_ as int), ascii),
                                    style: SpanStyle::Body {
                                        fg: ((k as int) % 5) as u8,
                                        bg: ((k as int) % 2) as u8,
                                    },
                                },
                            ]);
                        } else {
                            assert(spec_line_view(spans@) =~= spec_line_view(old_spans) + seq![
                                SpanV { text: " "@, style: SpanStyle::Plain },
                                SpanV {
                                    text: spec_glyphs(bv.raw.subrange(s_ as int, e_ as int), ascii),
                                    style: SpanStyle::Body {
                                        fg: ((k as int) % 5) as u8,
                                        bg: ((k as int) % 2) as u8,
                                    },
                                },
                            ]);
                        }
                    }
                }
                proof {
                    let slices = spec_row_slices(table, k as int, off as int, lo as int, hi as int);
                    let rest = spec_row_slices(
                        table,
                        k as int + 1,
                        off as int + sz64 as int,
                        lo as int,
                        hi as int,
                    );
                    if e_ > s_ {
                        assert(slices == seq![(k as int, s_ as int, e_ as int)] + rest);
                        assert(slices.drop_first() =~= rest);
                        assert(target =~= spec_line_view(spans@) + spec_spans_of_slices(
                            rest,
                            bv.raw,
                            ascii,
                            spans@.len() == 0,
                        ));
                    } else {
                        assert(slices == rest);
                    }
                }
                off = off + sz64;
                k = k + 1;
            }
            proof {
                assert(spec_row_slices(table, k as int, off as int, lo as int, hi as int)
                    =~= Seq::<(int, int, int)>::empty());
                assert(target =~= spec_line_view(spans@));
            }
            lines.push(spans);
        }
    }
    (n, lines)
}

/// With nothing hidden and enough height, the renderer produces exactly the
/// block's row count — one row folded, `row-count(width)` rows unfolded.
pub proof fn lemma_rows_drawn_matches_row_count(bv: BlockV, width: int, folded: bool, height: int)
    requires
        spec_visible_rows(bv, width, folded) <= height,
    ensures
        spec_rows_drawn(bv, width, folded, 0, height) == spec_visible_rows(bv, width, folded),
{
}

proof fn lemma_spans_mode_agree(slices: Seq<(int, int, int)>, raw: Seq<u8>, first: bool)
    ensures
        spec_spans_of_slices(slices, raw, true, first).len() == spec_spans_of_slices(
            slices,
            raw,
            false,
            first,
        ).len(),
        forall|k: int|
            0 <= k < spec_spans_of_slices(slices, raw, true, first).len() ==> {
                &&& (#[trigger] spec_spans_of_slices(slices, raw, true, first)[k]).style
                    == spec_spans_of_slices(slices, raw, false, first)[k].style
                &&& (spec_spans_of_slices(slices, raw, true, first)[k].style == SpanStyle::Plain
                    ==> spec_spans_of_slices(slices, raw, true, first)[k].text
                        == spec_spans_of_slices(slices, raw, false, first)[k].text)
            },
    decreases slices.len(),
{
    if slices.len() > 0 {
        lemma_spans_mode_agree(slices.drop_first(), raw, false);
    }
}

/// Toggling ASCII mode changes only the glyphs inside the byte spans of a
/// row: the same number of spans appears, each with the same style — so the
/// same section boundaries and separators — and every separator keeps its
/// text.  Row counts do not depend on the mode at all: `spec_rows` and
/// `spec_rows_drawn` take no mode.
pub proof fn lemma_ascii_mode_preserves_layout(bv: BlockV, width: int, row: int)
    ensures
        spec_row_spans(bv, width, row, true).len() == spec_row_spans(bv, width, row, false).len(),
        forall|k: int|
            0 <= k < spec_row_spans(bv, width, row, true).len() ==> {
                &&& (#[trigger] spec_row_spans(bv, width, row, true)[k]).style == spec_row_spans(
                    bv,
                    width,
                    row,
                    false,
                )[k].style
                &&& (spec_row_spans(bv, width, row, true)[k].style == SpanStyle::Plain
                    ==> spec_row_spans(bv, width, row, true)[k].text == spec_row_spans(
                        bv,
                        width,
                        row,
                        false,
                    )[k].text)
            },
{
    let bpr = spec_bytes_per_row(width);
    let lo = row * bpr;
    let hi = if bv.length < lo + bpr {
        bv.length
    } else {
        lo + bpr
    };
    lemma_spans_mode_agree(spec_row_slices(bv.sections, 0, 0, lo, hi), bv.raw, true);
}

/// Decodes `data` into its ordered sequence of typed blocks: a single
/// forward pass that reads each block's tag and declared length, dispatches
/// to the kind the tag selects, records each interface's link type for the
/// packets that follow, and stops after emitting a block whose error marker
/// is set.  Ids are dense in file order, and only the last block can be in
/// error.  Every intact Enhanced Packet in the result stores the link type
/// of the interface it references among the Interface Description blocks
/// before it.
pub fn parse(data: &Vec<u8>, config: &Config) -> (r: Vec<Block>)
    ensures
        blocks_view(r@) == spec_decode(data@, config@),
        forall|i: int| 0 <= i < r@.len() ==> (#[trigger] r@[i]).inv(),
        forall|i: int| 0 <= i < r@.len() ==> (#[trigger] r@[i]).bv().id as int == i,
        forall|i: int|
            0 <= i < r@.len() - 1 ==> (#[trigger] r@[i]).bv().error == BlockErrorKind::NoError,
        forall|i: int| 0 <= i < r@.len() ==> #[trigger] spec_epb_links_registry(r@, i),
{
    let ghost full = spec_decode(data@, config@);
    let mut out: Vec<Block> = Vec::new();
    let mut interfaces: Vec<u16> = Vec::new();
    let mut pos: usize = 0;
    let mut id: u32 = 0;
    let mut done = false;
    proof {
        assert(interfaces@ =~= Seq::<u16>::empty());
        assert(blocks_view(out@) =~= Seq::<BlockV>::empty());
        assert(spec_iface_seq(out@) =~= Seq::<u16>::empty());
        assert(blocks_view(out@) + spec_decode_from(data@, config@, 0, 0, interfaces@) =~= full);
    }
    while !done && pos < data.len()
        invariant
            pos <= data@.len(),
            forall|i: int| 0 <= i < out@.len() ==> (#[trigger] out@[i]).inv(),
            forall|i: int| 0 <= i < out@.len() ==> (#[trigger] out@[i]).bv().id as int == i,
            forall|i: int|
                0 <= i < out@.len() - 1 ==> (#[trigger] out@[i]).bv().error
                    == BlockErrorKind::NoError,
            interfaces@ == spec_iface_seq(out@),
            forall|k: int| 0 <= k < out@.len() ==> #[trigger] spec_epb_links_registry(out@, k),
            !done ==> {
                &&& id as int == out@.len()
                &&& blocks_view(out@) + spec_decode_from(data@, config@, pos as int, id, interfaces@)
                    == full
                &&& forall|i: int|
                    0 <= i < out@.len() ==> (#[trigger] out@[i]).bv().error
                        == BlockErrorKind::NoError
            },
            done ==> blocks_view(out@) == full,
        decreases data@.len() - pos + (if done { 0int } else { 1int }),
    {
        let ghost rest = data@.skip(pos as int);
        let ghost old_ifaces = interfaces@;
        let ghost pending = spec_decode_from(data@, config@, pos as int, id, interfaces@);
        proof {
            assert(rest =~= data@.subrange(pos as int, data@.len() as int));
        }
        let remaining = data.len() - pos;
        let tail = slice_subrange(data.as_slice(), pos, data.len());
        let single: (Block, usize);
        if remaining < 8 {
            let (b, adv) = BaseBlock::parse(tail, id);
            single = (Block::Base(b), adv);
        } else {
            let tag = read_le_u32(tail, 0);
            match block_types_of(tag) {
                BlockTypes::SectionHeaderBlock => {
                    let (b, adv) = SectionHeader::parse(tail, id);
                    single = (Block::SectionHeader(b), adv);
                },
                BlockTypes::InterfaceDescriptionBlock => {
                    let (b, adv) = InterfaceDescription::parse(tail, id, config);
                    let lt = b.link_type;
                    let ok = matches!(b.base.error_, BlockErrorKind::NoError);
                    single = (Block::InterfaceDescription(b), adv);
                    if ok {
                        interfaces.push(lt);
                    }
                },
                BlockTypes::EnhancedPacketBlock => {
                    let (b, adv) = EnhancedPacket::parse(tail, id, &interfaces, config);
                    single = (Block::EnhancedPacket(b), adv);
                },
                BlockTypes::Unknown => {
                    let (b, adv) = BaseBlock::parse(tail, id);
                    single = (Block::Base(b), adv);
                },
            }
        }
        let (block, advance) = single;
        let is_err = !matches!(block.error(), BlockErrorKind::NoError);
        let ghost old_out = out@;
        out.push(block);
        proof {
            assert(blocks_view(out@) =~= blocks_view(old_out) + seq![out@.last().bv()]);
            let n = old_out.len() as int;
            assert(out@.drop_last() =~= old_out);
            assert(spec_iface_seq(out@) == spec_iface_seq(old_out) + (match out@[n] {
                Block::InterfaceDescription(d) => {
                    if d.base.error_ == BlockErrorKind::NoError {
                        seq![d.link_type]
                    } else {
                        Seq::<u16>::empty()
                    }
                },
                _ => Seq::<u16>::empty(),
            }));
            assert(interfaces@ =~= spec_iface_seq(out@));
            assert forall|k: int| 0 <= k < n implies #[trigger] spec_epb_links_registry(
                out@,
                k,
            ) by {
                assert(out@[k] == old_out[k]);
                assert(out@.take(k) =~= old_out.take(k));
                assert(spec_epb_links_registry(old_out, k));
            }
            assert(out@.take(n) =~= old_out);
            assert(spec_epb_links_registry(out@, n));
        }
        if is_err {
            done = true;
            proof {
                assert(pending =~= seq![out@.last().bv()]);
                assert(blocks_view(out@) =~= full);
            }
        } else if id == u32::MAX {
            done = true;
            proof {
                assert(pending =~= seq![out@.last().bv()]);
                assert(blocks_view(out@) =~= full);
            }
        } else {
            pos = pos + advance;
            id = id + 1;
            proof {
                assert(pending =~= seq![out@.last().bv()] + spec_decode_from(
                    data@,
                    config@,
                    pos as int,
                    id,
                    interfaces@,
                ));
                assert(blocks_view(out@) + spec_decode_from(
                    data@,
                    config@,
                    pos as int,
                    id,
                    interfaces@,
                ) =~= full);
            }
        }
    }
    proof {
        if !done {
            assert(spec_decode_from(data@, config@, pos as int, id, interfaces@)
                =~= Seq::<BlockV>::empty());
            assert(blocks_view(out@) =~= full);
        }
    }
    out
}

} // verus!
