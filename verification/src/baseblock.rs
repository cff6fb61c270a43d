//! The generic block: the framing every kind shares, and the decode of a
//! block whose tag no kind claims.

use vstd::prelude::*;
use vstd::slice::{slice_subrange, slice_to_vec};

use crate::pcapng::{
    spec_base_sections, spec_rows, spec_title_of, sum_section_lens, BlockErrorKind, BlockV,
    PngBlock,
};
use crate::types::{block_type_str, block_types_of, spec_block_types_of, BlockTypes};
use crate::util::{div_ceil, le32, read_le_u32, spec_div_ceil, u32_to_dec};

verus! {

/// A block kept in its generic form: the 8-byte header, an opaque body and
/// the repeated 4-byte trailing length.
pub struct BaseBlock {
    pub id_: u32,
    pub raw_: Vec<u8>,
    pub block_type_: BlockTypes,
    pub length_: u32,
    pub options_: Vec<u8>,
    pub error_: BlockErrorKind,
}

/// The model of a block that failed to decode: only identity, kind, declared
/// length and the error marker are meaningful.
pub open spec fn spec_err_bv(id: u32, t: BlockTypes, length: int, e: BlockErrorKind) -> BlockV {
    BlockV {
        id,
        block_type: t,
        length,
        error: e,
        raw: Seq::empty(),
        sections: Seq::empty(),
        title: spec_title_of(id, t),
    }
}

/// What decoding a generic block at the head of `data` yields: the block's
/// model and the bytes consumed (0 when decoding must stop).
pub open spec fn spec_base_parse(data: Seq<u8>, id: u32) -> (BlockV, int) {
    if data.len() < 8 {
        (spec_err_bv(id, BlockTypes::Unknown, 0, BlockErrorKind::Truncated), 0)
    } else {
        let t = spec_block_types_of(le32(data, 0));
        let length = le32(data, 4);
        if length == 0 {
            (spec_err_bv(id, t, 0, BlockErrorKind::ZeroLength), 0)
        } else if length < 12 || length > data.len() {
            (spec_err_bv(id, t, length, BlockErrorKind::Truncated), 0)
        } else {
            (
                BlockV {
                    id,
                    block_type: t,
                    length,
                    error: BlockErrorKind::NoError,
                    raw: data.subrange(0, length),
                    sections: spec_base_sections(length),
                    title: spec_title_of(id, t),
                },
                length,
            )
        }
    }
}

impl BaseBlock {
    /// Bytes of the fixed parts: type tag, declared length, trailing length.
    pub const SIZE: usize = 12;

    /// Decodes the generic framing at the head of `data`: reads the type tag
    /// and declared length, and copies the declared span of bytes.  A missing
    /// header, a zero or short length, or a length past the end of `data`
    /// yields a block with its error marker set and no bytes consumed.
    pub fn parse(data: &[u8], id: u32) -> (r: (BaseBlock, usize))
        ensures
            r.0.inv(),
            r.0.bv() == spec_base_parse(data@, id).0,
            r.1 as int == spec_base_parse(data@, id).1,
            r.0.options_@ == Seq::<u8>::empty(),
    {
        if data.len() < 8 {
            return (
                BaseBlock::new(
                    Vec::new(),
                    BlockTypes::Unknown,
                    0,
                    Vec::new(),
                    id,
                    BlockErrorKind::Truncated,
                ),
                0,
            );
        }
        let tag = read_le_u32(data, 0);
        let block_type = block_types_of(tag);
        let length = read_le_u32(data, 4);
        if length == 0 {
            return (
                BaseBlock::new(Vec::new(), block_type, 0, Vec::new(), id, BlockErrorKind::ZeroLength),
                0,
            );
        }
        if length < 12 || (length as usize) > data.len() {
            return (
                BaseBlock::new(
                    Vec::new(),
                    block_type,
                    length,
                    Vec::new(),
                    id,
                    BlockErrorKind::Truncated,
                ),
                0,
            );
        }
        let raw = slice_to_vec(slice_subrange(data, 0, length as usize));
        (
            BaseBlock::new(raw, block_type, length, Vec::new(), id, BlockErrorKind::NoError),
            length as usize,
        )
    }

    /// Assembles a block from its parts.
    pub fn new(
        raw: Vec<u8>,
        block_type: BlockTypes,
        length: u32,
        options: Vec<u8>,
        id: u32,
        error: BlockErrorKind,
    ) -> (r: BaseBlock)
        ensures
            r == (BaseBlock {
                raw_: raw,
                block_type_: block_type,
                length_: length,
                options_: options,
                id_: id,
                error_: error,
            }),
    {
        BaseBlock {
            raw_: raw,
            block_type_: block_type,
            length_: length,
            options_: options,
            id_: id,
            error_: error,
        }
    }
}

impl PngBlock for BaseBlock {
    open spec fn bv(&self) -> BlockV {
        BlockV {
            id: self.id_,
            block_type: self.block_type_,
            length: self.length_ as int,
            error: self.error_,
            raw: self.raw_@,
            sections: if self.error_ == BlockErrorKind::NoError {
                spec_base_sections(self.length_ as int)
            } else {
                Seq::empty()
            },
            title: spec_title_of(self.id_, self.block_type_),
        }
    }

    open spec fn inv(&self) -> bool {
        self.error_ == BlockErrorKind::NoError ==> {
            &&& self.raw_@.len() == self.length_
            &&& self.length_ >= 12
        }
    }

    fn rows(&self, width: u16) -> (r: u64) {
        if !matches!(self.error_, BlockErrorKind::NoError) {
            return 1;
        }
        let bir: u64 = ((width as u64) + 1) / 3;
        let d = div_ceil(self.length_ as u64, bir);
        assert(d as int <= self.length_ as int) by (nonlinear_arith)
            requires
                d as int == spec_div_ceil(self.length_ as int, bir as int),
                bir >= 1,
                self.length_ >= 0,
        ;
        d + 1
    }

    fn sections(&self) -> (r: Vec<(String, usize)>) {
        let mut v: Vec<(String, usize)> = Vec::new();
        v.push((String::from_str("Block Type"), 4));
        v.push((String::from_str("Block Length"), 4));
        v.push((String::from_str("Data"), (self.length_ as usize) - 12));
        v.push((String::from_str("Block Length"), 4));
        proof {
            assert(crate::pcapng::spec_sections_of_vec(v@) =~= self.bv().sections);
            crate::pcapng::lemma_base_sections_sum(self.length_ as int);
        }
        v
    }

    fn error(&self) -> (r: BlockErrorKind) {
        self.error_
    }

    fn id(&self) -> (r: u32) {
        self.id_
    }

    fn length(&self) -> (r: usize) {
        self.length_ as usize
    }

    fn block_type(&self) -> (r: BlockTypes) {
        self.block_type_
    }

    fn title_line(&self) -> (r: String) {
        let s = u32_to_dec(self.id_);
        let s = s.concat(": ");
        let t = block_type_str(&self.block_type_);
        s.concat(t.as_str())
    }

    proof fn inv_properties(&self) {
    }

    fn raw(&self) -> (r: &Vec<u8>) {
        &self.raw_
    }
}

} // verus!
