use pcapng_view::hexview::HexView;
use pcapng_view::info::get_detail_string;
use pcapng_view::loader::Config;
use pcapng_view::pcapng::{draw_block, parse, Block, PngBlock, SpanStyle};
use pcapng_view::types::Rect;

fn push_u16(v: &mut Vec<u8>, x: u16) {
    v.extend_from_slice(&x.to_le_bytes());
}

fn push_u32(v: &mut Vec<u8>, x: u32) {
    v.extend_from_slice(&x.to_le_bytes());
}

fn push_u64(v: &mut Vec<u8>, x: u64) {
    v.extend_from_slice(&x.to_le_bytes());
}

fn section_header_block() -> Vec<u8> {
    let mut v = Vec::new();
    push_u32(&mut v, 0x0A0D0D0A);
    push_u32(&mut v, 28);
    push_u32(&mut v, 0x1A2B3C4D);
    push_u16(&mut v, 1);
    push_u16(&mut v, 0);
    push_u64(&mut v, u64::MAX);
    push_u32(&mut v, 28);
    v
}

fn interface_description_block(link_type: u16, snap: u32) -> Vec<u8> {
    let mut v = Vec::new();
    push_u32(&mut v, 1);
    push_u32(&mut v, 20);
    push_u16(&mut v, link_type);
    push_u16(&mut v, 0);
    push_u32(&mut v, snap);
    push_u32(&mut v, 20);
    v
}

fn sample_blocks() -> Vec<Block> {
    let mut data = section_header_block();
    data.extend_from_slice(&interface_description_block(1, 65535));
    parse(&data, &Config::new())
}

fn area(width: u16, height: u16) -> Rect {
    Rect { x: 0, y: 0, width, height }
}

#[test]
fn renderer_produces_row_count_rows() {
    let blocks = sample_blocks();
    // Plenty of height: the renderer must produce exactly rows(width) rows.
    for width in [3u16, 10, 11, 30, 80] {
        for b in &blocks {
            let rows = b.rows(width);
            let (drawn, lines) = draw_block(b, area(width, 1000), 0, false, false);
            assert_eq!(drawn as u64, rows);
            assert_eq!(lines.len() as u64, rows);
            let (folded_drawn, folded_lines) = draw_block(b, area(width, 1000), 0, true, false);
            assert_eq!(folded_drawn, 1);
            assert_eq!(folded_lines.len(), 1);
        }
    }
}

#[test]
fn row_count_formula() {
    let blocks = sample_blocks();
    // width 10 gives floor((10 + 1) / 3) = 3 bytes per row; a 28-byte block
    // wraps to ceil(28 / 3) = 10 byte rows plus the title row.
    assert_eq!(blocks[0].rows(10), 11);
    // width 3 gives 1 byte per row.
    assert_eq!(blocks[0].rows(3), 29);
}

#[test]
fn title_row_then_clipped_body() {
    let blocks = sample_blocks();
    let (drawn, lines) = draw_block(&blocks[0], area(10, 4), 0, false, false);
    assert_eq!(drawn, 4);
    assert_eq!(lines.len(), 4);
    assert_eq!(lines[0].len(), 1);
    assert_eq!(lines[0][0].text, "0: Section Header");
    assert_eq!(lines[0][0].style, SpanStyle::Title);
    // First byte row at width 10 holds bytes 0..3: "0a 0d 0d", the little-
    // endian head of the type tag, owned entirely by the first section.
    assert_eq!(lines[1].len(), 1);
    assert_eq!(lines[1][0].text, "0a 0d 0d");
    assert_eq!(lines[1][0].style, SpanStyle::Body { fg: 0, bg: 0 });
    // The second byte row crosses from "Block Type" into "Block Length":
    // byte 3, a separator, then bytes 4..6.
    assert_eq!(lines[2].len(), 3);
    assert_eq!(lines[2][0].text, "0a");
    assert_eq!(lines[2][1].text, " ");
    assert_eq!(lines[2][1].style, SpanStyle::Plain);
    assert_eq!(lines[2][2].text, "1c 00");
    assert_eq!(lines[2][2].style, SpanStyle::Body { fg: 1, bg: 1 });
}

#[test]
fn hidden_rows_skip_leading_bytes() {
    let blocks = sample_blocks();
    let full = draw_block(&blocks[0], area(10, 1000), 0, false, false);
    let scrolled = draw_block(&blocks[0], area(10, 1000), 3, false, false);
    // The title is drawn again, then the byte rows continue from row 3.
    assert_eq!(scrolled.0 as u64, blocks[0].rows(10) - 3);
    assert_eq!(scrolled.1[0][0].text, "0: Section Header");
    assert_eq!(scrolled.1[1], full.1[4]);
}

#[test]
fn ascii_toggle_changes_glyphs_not_layout() {
    let blocks = sample_blocks();
    let hex = draw_block(&blocks[0], area(10, 1000), 0, false, false);
    let ascii = draw_block(&blocks[0], area(10, 1000), 0, false, true);
    assert_eq!(hex.0, ascii.0);
    assert_eq!(hex.1.len(), ascii.1.len());
    for (hl, al) in hex.1.iter().zip(ascii.1.iter()) {
        assert_eq!(hl.len(), al.len());
        for (hs, asp) in hl.iter().zip(al.iter()) {
            assert_eq!(hs.style, asp.style);
        }
    }
    // The glyphs themselves change: byte 0x0a renders as "0a" against ".".
    assert_eq!(hex.1[1][0].text, "0a 0d 0d");
    assert_eq!(ascii.1[1][0].text, ".  .  . ");
}

#[test]
fn detail_lookup() {
    let blocks = sample_blocks();
    // Row 0 is the title row, whatever the column.
    assert_eq!(get_detail_string(&blocks[1], 30, (17, 0)), blocks[1].title_line());
    // Offset 0 of an Interface Description block: its first field.
    assert_eq!(get_detail_string(&blocks[1], 30, (0, 1)), "Block Type");
    assert_eq!(get_detail_string(&blocks[1], 30, (2, 1)), "Block Type");
    // Byte 8 at width 30 (10 bytes per row) is the link type field.
    assert_eq!(
        get_detail_string(&blocks[1], 30, (24, 1)),
        "Link Type - Ethernet"
    );
    // Past the end of the block: the defensive empty fallback.
    assert_eq!(get_detail_string(&blocks[1], 30, (0, 100)), "");
}

#[test]
fn viewport_draw_records_extents() {
    let blocks = sample_blocks();
    let mut hv = HexView::new();
    hv.draw(area(10, 40), &blocks);
    // Both blocks fit: 11 + 8 rows plus a separator between them.
    assert_eq!(hv.block_areas, vec![(0, 11), (1, 8)]);
    assert_eq!(hv.row_counts, vec![11, 8]);
    assert_eq!(hv.total, 11 + 1 + 8 + 1);
    assert_eq!(hv.pos, 0);
}

#[test]
fn fold_collapses_to_title_row() {
    let blocks = sample_blocks();
    let mut hv = HexView::new();
    let before = hv.draw(area(10, 40), &blocks);
    assert_eq!(hv.id_under_cursor(), Some((0, 0)));
    hv.fold();
    assert_eq!(hv.folded, vec![true, false]);
    let after = hv.draw(area(10, 40), &blocks);
    assert_eq!(hv.block_areas, vec![(0, 1), (1, 8)]);
    assert!(after.len() < before.len());
    // Natural row counts are cached unchanged; only the walk collapses.
    assert_eq!(hv.row_counts, vec![11, 8]);
}

#[test]
fn fold_toggle_is_idempotent() {
    let blocks = sample_blocks();
    let mut hv = HexView::new();
    let before = hv.draw(area(10, 40), &blocks);
    let folded_before = hv.folded.clone();
    hv.fold();
    hv.fold();
    assert_eq!(hv.folded, folded_before);
    let after = hv.draw(area(10, 40), &blocks);
    assert_eq!(before, after);
    assert_eq!(hv.block_areas, vec![(0, 11), (1, 8)]);
}

#[test]
fn fold_before_any_draw_is_a_no_op() {
    let mut hv = HexView::new();
    assert_eq!(hv.id_under_cursor(), None);
    hv.fold();
    assert_eq!(hv.folded, Vec::<bool>::new());
}

#[test]
fn jump_bottom_then_top_returns_to_zero() {
    let blocks = sample_blocks();
    let mut hv = HexView::new();
    hv.draw(area(10, 5), &blocks);
    hv.bottom();
    // All blocks before the last: 11 rows plus one separator.
    assert_eq!(hv.pos, 12);
    hv.top();
    assert_eq!(hv.pos, 0);
}

#[test]
fn cursor_stays_inside_area_after_any_navigation() {
    let blocks = sample_blocks();
    let mut hv = HexView::new();
    let a = area(12, 6);
    hv.draw(a, &blocks);
    for step in 0..100u32 {
        match step % 8 {
            0 => hv.down(),
            1 => hv.right(),
            2 => hv.up(),
            3 => hv.down_half(),
            4 => hv.left(),
            5 => hv.up_half(),
            6 => hv.bottom(),
            _ => hv.down(),
        }
        hv.draw(a, &blocks);
        assert!(hv.cursor.0 < a.width);
        assert!(hv.cursor.1 < a.height);
    }
    // A shrink reclamps the cursor.
    let small = area(3, 2);
    hv.draw(small, &blocks);
    assert!(hv.cursor.0 < small.width);
    assert!(hv.cursor.1 < small.height);
}

#[test]
fn scrolling_hides_rows_line_by_line() {
    let blocks = sample_blocks();
    let mut hv = HexView::new();
    let a = area(10, 6);
    let top = hv.draw(a, &blocks);
    // Move the cursor to the bottom edge, then one more down scrolls.
    for _ in 0..5 {
        hv.down();
    }
    assert_eq!(hv.pos, 0);
    hv.down();
    assert_eq!(hv.pos, 1);
    let scrolled = hv.draw(a, &blocks);
    // The first visible byte row is now one further in.
    assert_eq!(scrolled[1].spans, top[2].spans);
}

#[test]
fn scroll_offset_clamps_to_cumulative_rows() {
    let blocks = sample_blocks();
    let mut hv = HexView::new();
    hv.draw(area(10, 6), &blocks);
    for _ in 0..1000 {
        hv.down_half();
    }
    assert!(hv.pos <= hv.total);
    assert_eq!(hv.pos, 21);
    hv.draw(area(10, 6), &blocks);
    assert!(hv.pos <= hv.total);
}

#[test]
fn toggle_ascii_keeps_row_counts_and_extents() {
    let blocks = sample_blocks();
    let mut hv = HexView::new();
    hv.draw(area(10, 40), &blocks);
    let areas = hv.block_areas.clone();
    let counts = hv.row_counts.clone();
    hv.toggle_ascii();
    hv.draw(area(10, 40), &blocks);
    assert_eq!(hv.block_areas, areas);
    assert_eq!(hv.row_counts, counts);
}

#[test]
fn error_block_renders_single_error_line() {
    let mut data = Vec::new();
    push_u32(&mut data, 6);
    push_u32(&mut data, 0);
    let blocks = parse(&data, &Config::new());
    let (drawn, lines) = draw_block(&blocks[0], area(20, 10), 0, false, false);
    assert_eq!(drawn, 1);
    assert_eq!(lines[0][0].text, "0: ERROR Block has zero length");
}
