//! The Section Header block: byte-order magic, format version and section
//! length.

use vstd::prelude::*;

use crate::baseblock::{spec_base_parse, spec_err_bv, BaseBlock};
use crate::pcapng::{spec_sections_of_vec, sum_section_lens, BlockErrorKind, BlockV, PngBlock};
use crate::types::BlockTypes;
use crate::util::{read_le_u16, read_le_u32, read_le_u64};

verus! {

/// Byte-order magic of a little-endian section.
pub const BYTE_ORDER_MAGIC: u32 = 0x1A2B3C4D;

/// A Section Header block.
pub struct SectionHeader {
    pub base: BaseBlock,
    pub little_endian: bool,
    pub major_version: u16,
    pub minor_version: u16,
    pub section_length: u64,
}

/// The section table of a Section Header block of the given declared length.
pub open spec fn spec_sh_sections(length: int) -> Seq<(Seq<char>, int)> {
    seq![
        ("Block Type"@, 4),
        ("Block Length"@, 4),
        ("Section Byte Order"@, 4),
        ("Major Version"@, 2),
        ("Minor Version"@, 2),
        ("Section Length"@, 8),
        ("Options"@, length - 28),
        ("Block Length"@, 4),
    ]
}

/// The Section Header table covers the declared length exactly.
pub proof fn lemma_sh_sections_sum(length: int)
    ensures
        sum_section_lens(spec_sh_sections(length)) == length,
{
    reveal_with_fuel(sum_section_lens, 10);
    let s = spec_sh_sections(length);
    assert(sum_section_lens(s) == length) by {
        assert(s.drop_last() =~= s.take(7));
        assert(s.take(7).drop_last() =~= s.take(6));
        assert(s.take(6).drop_last() =~= s.take(5));
        assert(s.take(5).drop_last() =~= s.take(4));
        assert(s.take(4).drop_last() =~= s.take(3));
        assert(s.take(3).drop_last() =~= s.take(2));
        assert(s.take(2).drop_last() =~= s.take(1));
        assert(s.take(1).drop_last() =~= s.take(0));
        assert(s.take(0) =~= Seq::<(Seq<char>, int)>::empty());
    };
}

/// What decoding a Section Header block at the head of `data` yields.  A
/// declared length below the kind's fixed size of 28 marks the block
/// truncated.
pub open spec fn spec_sh_parse(data: Seq<u8>, id: u32) -> (BlockV, int) {
    let br = spec_base_parse(data, id);
    let b = br.0;
    if b.error != BlockErrorKind::NoError {
        br
    } else if b.length < 28 {
        (spec_err_bv(id, b.block_type, b.length, BlockErrorKind::Truncated), 0)
    } else {
        (BlockV { sections: spec_sh_sections(b.length), ..b }, br.1)
    }
}

impl SectionHeader {
    /// Bytes of the fixed parts: generic framing plus magic, versions and
    /// section length.
    pub const SIZE: usize = 28;

    /// Decodes a Section Header block at the head of `data`.
    pub fn parse(data: &[u8], id: u32) -> (r: (SectionHeader, usize))
        ensures
            r.0.inv(),
            r.0.bv() == spec_sh_parse(data@, id).0,
            r.1 as int == spec_sh_parse(data@, id).1,
            r.0.bv().error == BlockErrorKind::NoError ==> {
                &&& r.0.little_endian == (crate::util::le32(data@, 8) == BYTE_ORDER_MAGIC as int)
                &&& r.0.major_version as int == crate::util::le16(data@, 12)
                &&& r.0.minor_version as int == crate::util::le16(data@, 14)
                &&& r.0.section_length as int == crate::util::le64(data@, 16)
            },
            r.0.bv().error != BlockErrorKind::NoError ==> {
                &&& r.0.little_endian == false
                &&& r.0.major_version == 0
                &&& r.0.minor_version == 0
                &&& r.0.section_length == 0
            },
    {
        let (mut base, advance) = BaseBlock::parse(data, id);
        if !matches!(base.error_, BlockErrorKind::NoError) {
            return (
                SectionHeader {
                    base,
                    little_endian: false,
                    major_version: 0,
                    minor_version: 0,
                    section_length: 0,
                },
                0,
            );
        }
        if base.length_ < 28 {
            base.error_ = BlockErrorKind::Truncated;
            base.raw_ = Vec::new();
            return (
                SectionHeader {
                    base,
                    little_endian: false,
                    major_version: 0,
                    minor_version: 0,
                    section_length: 0,
                },
                0,
            );
        }
        let little_endian = read_le_u32(data, 8) == BYTE_ORDER_MAGIC;
        let major_version = read_le_u16(data, 12);
        let minor_version = read_le_u16(data, 14);
        let section_length = read_le_u64(data, 16);
        (
            SectionHeader { base, little_endian, major_version, minor_version, section_length },
            advance,
        )
    }

}

impl PngBlock for SectionHeader {
    open spec fn bv(&self) -> BlockV {
        BlockV {
            sections: if self.base.error_ == BlockErrorKind::NoError {
                spec_sh_sections(self.base.length_ as int)
            } else {
                Seq::empty()
            },
            ..self.base.bv()
        }
    }

    open spec fn inv(&self) -> bool {
        &&& self.base.inv()
        &&& self.base.error_ == BlockErrorKind::NoError ==> self.base.length_ >= 28
    }

    fn rows(&self, width: u16) -> (r: u64) {
        self.base.rows(width)
    }

    fn sections(&self) -> (r: Vec<(String, usize)>) {
        let mut v: Vec<(String, usize)> = Vec::new();
        v.push((String::from_str("Block Type"), 4));
        v.push((String::from_str("Block Length"), 4));
        v.push((String::from_str("Section Byte Order"), 4));
        v.push((String::from_str("Major Version"), 2));
        v.push((String::from_str("Minor Version"), 2));
        v.push((String::from_str("Section Length"), 8));
        v.push((String::from_str("Options"), (self.base.length_ as usize) - 28));
        v.push((String::from_str("Block Length"), 4));
        proof {
            assert(spec_sections_of_vec(v@) =~= self.bv().sections);
            lemma_sh_sections_sum(self.base.length_ as int);
        }
        v
    }

    fn error(&self) -> (r: BlockErrorKind) {
        self.base.error_
    }

    fn id(&self) -> (r: u32) {
        self.base.id_
    }

    fn length(&self) -> (r: usize) {
        self.base.length_ as usize
    }

    fn block_type(&self) -> (r: BlockTypes) {
        self.base.block_type_
    }

    fn title_line(&self) -> (r: String) {
        self.base.title_line()
    }

    proof fn inv_properties(&self) {
    }

    fn raw(&self) -> (r: &Vec<u8>) {
        &self.base.raw_
    }
}

} // verus!
