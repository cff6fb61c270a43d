//! Detail lookup: maps a cursor cell back to the label of the field that
//! owns the byte under it.

use vstd::prelude::*;

use crate::interface_description::spec_id_sections;
use crate::pcapng::{spec_bytes_per_row, BlockErrorKind, BlockV, PngBlock};

verus! {

/// The label of the section that the byte at linear offset `off` falls in,
/// scanning the table in order; empty past the end of the table.
pub open spec fn spec_section_label_at(secs: Seq<(Seq<char>, int)>, off: int) -> Seq<char>
    decreases secs.len(),
{
    if secs.len() == 0 {
        Seq::empty()
    } else if off < secs[0].1 {
        secs[0].0
    } else {
        spec_section_label_at(secs.drop_first(), off - secs[0].1)
    }
}

/// What detail lookup shows for a cursor cell: the title on the title row,
/// nothing for a block in error, and otherwise the label of the section
/// owning the byte at `(row - 1) * bytes-per-row + col / 3`.
pub open spec fn spec_detail(bv: BlockV, width: int, col: int, row: int) -> Seq<char> {
    if row == 0 {
        bv.title
    } else if bv.error != BlockErrorKind::NoError {
        Seq::empty()
    } else {
        spec_section_label_at(bv.sections, (row - 1) * spec_bytes_per_row(width) + col / 3)
    }
}

/// Resolves the cursor cell `cursor` (column, row relative to the block's
/// first drawn row) to the label of the owning field.  Row 0 is the title
/// row; an offset past the block's end yields an empty string.
pub fn get_detail_string<B: PngBlock>(block: &B, width: u16, cursor: (u16, u16)) -> (r: String)
    requires
        block.inv(),
        width >= 3,
    ensures
        r@ == spec_detail(block.bv(), width as int, cursor.0 as int, cursor.1 as int),
{
    if cursor.1 == 0 {
        return block.title_line();
    }
    if !matches!(block.error(), BlockErrorKind::NoError) {
        return String::new();
    }
    let bpr: u64 = ((width as u64) + 1) / 3;
    let row64: u64 = (cursor.1 - 1) as u64;
    let col64: u64 = (cursor.0 as u64) / 3;
    assert(row64 * bpr + col64 < 0x1_0000_0000) by (nonlinear_arith)
        requires
            row64 <= 65535,
            bpr <= 21846,
            col64 <= 65535,
    ;
    let mut offset: u64 = row64 * bpr + col64;
    let sections = block.sections();
    let ghost table = block.bv().sections;
    let ghost start = offset as int;
    proof {
        assert(table.skip(0) =~= table);
    }
    let n = sections.len();
    for i in 0..n
        invariant
            n == sections@.len(),
            crate::pcapng::spec_sections_of_vec(sections@) == table,
            spec_detail(block.bv(), width as int, cursor.0 as int, cursor.1 as int)
                == spec_section_label_at(table, start),
            spec_section_label_at(table.skip(i as int), offset as int) == spec_section_label_at(
                table,
                start,
            ),
    {
        let size = sections[i].1;
        proof {
            assert(table.skip(i as int)[0] == table[i as int]);
            assert(table.skip(i as int).drop_first() =~= table.skip(i as int + 1));
        }
        if offset < size as u64 {
            return sections[i].0.clone();
        }
        offset = offset - (size as u64);
    }
    proof {
        assert(table.skip(n as int) =~= Seq::<(Seq<char>, int)>::empty());
    }
    String::new()
}

/// On the title row, detail lookup shows the block's title line, whatever
/// the cursor column.
pub proof fn lemma_detail_title_row(bv: BlockV, width: int, col: int)
    ensures
        spec_detail(bv, width, col, 0) == bv.title,
{
}

/// On the first byte row of an intact Interface Description block, a cursor
/// in the first three columns — byte offset 0 — names the block's first
/// field.
pub proof fn lemma_detail_first_field(
    bv: BlockV,
    width: int,
    col: int,
    length: int,
    link_name: Seq<char>,
    snap: int,
)
    requires
        bv.error == BlockErrorKind::NoError,
        bv.sections == spec_id_sections(length, link_name, snap),
        width >= 3,
        0 <= col < 3,
    ensures
        spec_detail(bv, width, col, 1) == "Block Type"@,
{
    assert(spec_detail(bv, width, col, 1) == spec_section_label_at(bv.sections, 0));
    assert(bv.sections[0] == ("Block Type"@, 4int));
}

} // verus!
