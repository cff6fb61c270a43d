//! The Interface Description block: link type, snap length, and the name the
//! configuration gives the link type.

use vstd::prelude::*;

use crate::baseblock::{spec_base_parse, spec_err_bv, BaseBlock};
use crate::loader::{spec_link_name, Config};
use crate::pcapng::{
    spec_sections_of_vec, spec_title_of, sum_section_lens, BlockErrorKind, BlockV, PngBlock,
};
use crate::types::BlockTypes;
use crate::util::{read_le_u16, read_le_u32, spec_dec, u32_to_dec};

verus! {

/// An Interface Description block.
pub struct InterfaceDescription {
    pub base: BaseBlock,
    pub link_type: u16,
    pub reserved: u16,
    pub snap_length: u32,
    pub link_type_str: String,
}

/// The section table of an Interface Description block: declared length,
/// resolved link-type name, and snap length.
pub open spec fn spec_id_sections(length: int, link_name: Seq<char>, snap: int) -> Seq<
    (Seq<char>, int),
> {
    seq![
        ("Block Type"@, 4),
        ("Block Length"@, 4),
        ("Link Type - "@ + link_name, 2),
        ("Reserved"@, 2),
        ("Snap Length - "@ + spec_dec(snap), 4),
        ("Options"@, length - 20),
        ("Block Length"@, 4),
    ]
}

/// The Interface Description table covers the declared length exactly.
pub proof fn lemma_id_sections_sum(length: int, link_name: Seq<char>, snap: int)
    ensures
        sum_section_lens(spec_id_sections(length, link_name, snap)) == length,
{
    reveal_with_fuel(sum_section_lens, 9);
    let s = spec_id_sections(length, link_name, snap);
    assert(sum_section_lens(s) == length) by {
        assert(s.drop_last() =~= s.take(6));
        assert(s.take(6).drop_last() =~= s.take(5));
        assert(s.take(5).drop_last() =~= s.take(4));
        assert(s.take(4).drop_last() =~= s.take(3));
        assert(s.take(3).drop_last() =~= s.take(2));
        assert(s.take(2).drop_last() =~= s.take(1));
        assert(s.take(1).drop_last() =~= s.take(0));
        assert(s.take(0) =~= Seq::<(Seq<char>, int)>::empty());
    };
}

/// What decoding an Interface Description block at the head of `data`
/// yields, under the link-type names of `cfg`.  A declared length below the
/// kind's fixed size of 20 marks the block truncated.
pub open spec fn spec_id_parse(
    data: Seq<u8>,
    id: u32,
    links: Seq<(u16, Seq<char>)>,
) -> (BlockV, int) {
    let br = spec_base_parse(data, id);
    let b = br.0;
    if b.error != BlockErrorKind::NoError {
        br
    } else if b.length < 20 {
        (spec_err_bv(id, b.block_type, b.length, BlockErrorKind::Truncated), 0)
    } else {
        let link_type = crate::util::le16(data, 8) as u16;
        let name = spec_link_name(links, link_type);
        (
            BlockV {
                sections: spec_id_sections(b.length, name, crate::util::le32(data, 12)),
                title: b.title + " - "@ + name,
                ..b
            },
            br.1,
        )
    }
}

impl InterfaceDescription {
    /// Bytes of the fixed parts: generic framing plus link type, reserved
    /// field and snap length.
    pub const SIZE: usize = 20;

    /// Decodes an Interface Description block at the head of `data`,
    /// resolving the link-type name through `config`.
    pub fn parse(data: &[u8], id: u32, config: &Config) -> (r: (InterfaceDescription, usize))
        ensures
            r.0.inv(),
            r.0.bv() == spec_id_parse(data@, id, config@.link_types).0,
            r.1 as int == spec_id_parse(data@, id, config@.link_types).1,
            r.0.bv().error == BlockErrorKind::NoError ==> {
                &&& r.0.link_type as int == crate::util::le16(data@, 8)
                &&& r.0.reserved as int == crate::util::le16(data@, 10)
                &&& r.0.snap_length as int == crate::util::le32(data@, 12)
                &&& r.0.link_type_str@ == spec_link_name(
                    config@.link_types,
                    crate::util::le16(data@, 8) as u16,
                )
            },
            r.0.bv().error != BlockErrorKind::NoError ==> {
                &&& r.0.link_type == 0
                &&& r.0.reserved == 0
                &&& r.0.snap_length == 0
                &&& r.0.link_type_str@ == Seq::<char>::empty()
            },
    {
        let (mut base, advance) = BaseBlock::parse(data, id);
        if !matches!(base.error_, BlockErrorKind::NoError) {
            return (
                InterfaceDescription {
                    base,
                    link_type: 0,
                    reserved: 0,
                    snap_length: 0,
                    link_type_str: String::new(),
                },
                0,
            );
        }
        if base.length_ < 20 {
            base.error_ = BlockErrorKind::Truncated;
            base.raw_ = Vec::new();
            return (
                InterfaceDescription {
                    base,
                    link_type: 0,
                    reserved: 0,
                    snap_length: 0,
                    link_type_str: String::new(),
                },
                0,
            );
        }
        let link_type = read_le_u16(data, 8);
        let reserved = read_le_u16(data, 10);
        let snap_length = read_le_u32(data, 12);
        let link_type_str = config.link_type_name(link_type);
        (
            InterfaceDescription { base, link_type, reserved, snap_length, link_type_str },
            advance,
        )
    }
}

impl PngBlock for InterfaceDescription {
    open spec fn bv(&self) -> BlockV {
        if self.base.error_ == BlockErrorKind::NoError {
            BlockV {
                sections: spec_id_sections(
                    self.base.length_ as int,
                    self.link_type_str@,
                    self.snap_length as int,
                ),
                title: spec_title_of(self.base.id_, self.base.block_type_) + " - "@
                    + self.link_type_str@,
                ..self.base.bv()
            }
        } else {
            BlockV { sections: Seq::empty(), ..self.base.bv() }
        }
    }

    open spec fn inv(&self) -> bool {
        &&& self.base.inv()
        &&& self.base.error_ == BlockErrorKind::NoError ==> self.base.length_ >= 20
    }

    fn rows(&self, width: u16) -> (r: u64) {
        self.base.rows(width)
    }

    fn sections(&self) -> (r: Vec<(String, usize)>) {
        let mut v: Vec<(String, usize)> = Vec::new();
        v.push((String::from_str("Block Type"), 4));
        v.push((String::from_str("Block Length"), 4));
        v.push((String::from_str("Link Type - ").concat(self.link_type_str.as_str()), 2));
        v.push((String::from_str("Reserved"), 2));
        let snap = u32_to_dec(self.snap_length);
        v.push((String::from_str("Snap Length - ").concat(snap.as_str()), 4));
        v.push((String::from_str("Options"), (self.base.length_ as usize) - 20));
        v.push((String::from_str("Block Length"), 4));
        proof {
            assert(spec_sections_of_vec(v@) =~= self.bv().sections);
            lemma_id_sections_sum(
                self.base.length_ as int,
                self.link_type_str@,
                self.snap_length as int,
            );
        }
        v
    }

    fn error(&self) -> (r: BlockErrorKind) {
        self.base.error_
    }

    fn id(&self) -> (r: u32) {
        self.base.id_
    }

    fn length(&self) -> (r: usize) {
        self.base.length_ as usize
    }

    fn block_type(&self) -> (r: BlockTypes) {
        self.base.block_type_
    }

    fn title_line(&self) -> (r: String) {
        let t = self.base.title_line();
        if matches!(self.base.error_, BlockErrorKind::NoError) {
            t.concat(" - ").concat(self.link_type_str.as_str())
        } else {
            t
        }
    }

    proof fn inv_properties(&self) {
    }

    fn raw(&self) -> (r: &Vec<u8>) {
        &self.base.raw_
    }
}

} // verus!
