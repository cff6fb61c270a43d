//! The viewport engine: scroll offset, fold set, cursor, per-block row
//! counts, and the per-frame walk that decides which blocks and rows are
//! visible.

use vstd::prelude::*;

use crate::pcapng::{
    spec_line_view, spec_min, spec_row_spans, spec_rows, spec_title_span, Block, PngBlock, SpanV,
    TextSpan,
};
use crate::types::Rect;

verus! {

/// One rendered line of the frame, at an absolute row of the screen.
#[derive(Debug, PartialEq, Eq)]
pub struct PlacedLine {
    pub y: u16,
    pub spans: Vec<TextSpan>,
}

/// Model of a [`PlacedLine`].
#[verifier::ext_equal]
pub ghost struct PlacedLineV {
    pub y: u16,
    pub spans: Seq<SpanV>,
}

impl View for PlacedLine {
    type V = PlacedLineV;

    open spec fn view(&self) -> PlacedLineV {
        PlacedLineV { y: self.y, spans: spec_line_view(self.spans@) }
    }
}

/// The models of the lines of a frame.
pub open spec fn spec_frame_view(f: Seq<PlacedLine>) -> Seq<PlacedLineV> {
    Seq::new(f.len(), |i: int| f[i]@)
}

/// The viewport: scroll offset, cursor, fold set, cached row counts, and
/// the extents recorded by the most recent draw.
pub struct HexView {
    /// Logical scroll offset: rows of the block sequence hidden above the
    /// visible area.
    pub pos: u64,
    /// Cursor cell (column, row), relative to the drawing area.
    pub cursor: (u16, u16),
    /// The drawing area of the most recent draw.
    pub area: Rect,
    /// For each block drawn by the most recent draw, in order: its index
    /// and the rows it consumed.
    pub block_areas: Vec<(u32, u16)>,
    /// Fold state per block: a folded block collapses to its title row.
    pub folded: Vec<bool>,
    /// Full row count per block at the current width.
    pub row_counts: Vec<u64>,
    /// Cumulative row count of the whole sequence (one separator row after
    /// each block), saturated.
    pub total: u64,
    /// Whether bytes render as printable-or-dot glyphs instead of hex pairs.
    pub ascii: bool,
}

/// Model of a [`HexView`].
#[verifier::ext_equal]
pub ghost struct HexViewV {
    pub pos: u64,
    pub cursor: (u16, u16),
    pub area: Rect,
    pub block_areas: Seq<(u32, u16)>,
    pub folded: Seq<bool>,
    pub row_counts: Seq<u64>,
    pub total: u64,
    pub ascii: bool,
}

impl View for HexView {
    type V = HexViewV;

    open spec fn view(&self) -> HexViewV {
        HexViewV {
            pos: self.pos,
            cursor: self.cursor,
            area: self.area,
            block_areas: self.block_areas@,
            folded: self.folded@,
            row_counts: self.row_counts@,
            total: self.total,
            ascii: self.ascii,
        }
    }
}

/// Rows block `i` takes in the walk: one when folded, its full count
/// otherwise.
pub open spec fn spec_eff_rows(folded: Seq<bool>, counts: Seq<u64>, i: int) -> int {
    if folded[i] {
        1
    } else {
        counts[i] as int
    }
}

/// Cumulative rows of the first `n` blocks, each contributing its effective
/// rows plus one separator row.
pub open spec fn spec_total_rows(folded: Seq<bool>, counts: Seq<u64>, n: int) -> int
    decreases n,
{
    if n <= 0 {
        0
    } else {
        spec_total_rows(folded, counts, n - 1) + spec_eff_rows(folded, counts, n - 1) + 1
    }
}

/// The block under a cursor row, resolved against the drawn extents of the
/// most recent draw: walk the recorded blocks, subtracting each one's drawn
/// rows and its separator, until the row falls within a block's span.
pub open spec fn spec_resolve(areas: Seq<(u32, u16)>, cy: int) -> Option<(u32, int)>
    decreases areas.len(),
{
    if areas.len() == 0 {
        Option::None
    } else if cy > areas[0].1 {
        spec_resolve(areas.drop_first(), cy - areas[0].1 - 1)
    } else {
        Option::Some((areas[0].0, cy))
    }
}

/// Well-formedness of the viewport: the cursor sits inside the area (or at
/// the origin before any draw), the fold set and the row-count cache cover
/// the same blocks, the recorded extents point into them, and the offset
/// does not pass the cumulative row count recorded at the last refresh.
pub open spec fn spec_hv_inv(v: HexViewV) -> bool {
    &&& (v.cursor.0 == 0 || v.cursor.0 < v.area.width)
    &&& (v.cursor.1 == 0 || v.cursor.1 < v.area.height)
    &&& v.folded.len() == v.row_counts.len()
    &&& v.pos <= v.total
    &&& forall|k: int|
        0 <= k < v.block_areas.len() ==> (#[trigger] v.block_areas[k]).0 < v.row_counts.len()
}

/// What `down` does: move the cursor a row down, or at the area's bottom
/// edge scroll one row instead, clamped to the cumulative row count.
pub open spec fn spec_down(v: HexViewV) -> HexViewV {
    if v.cursor.1 + 1 < v.area.height {
        HexViewV { cursor: (v.cursor.0, (v.cursor.1 + 1) as u16), ..v }
    } else {
        HexViewV { pos: spec_min(v.pos + 1, v.total as int) as u64, ..v }
    }
}

/// What `up` does: move the cursor a row up, or at the top edge scroll one
/// row back, clamped at the very top.
pub open spec fn spec_up(v: HexViewV) -> HexViewV {
    if v.cursor.1 == 0 {
        HexViewV { pos: if v.pos > 0 { (v.pos - 1) as u64 } else { 0 }, ..v }
    } else {
        HexViewV { cursor: (v.cursor.0, (v.cursor.1 - 1) as u16), ..v }
    }
}

/// What `down_half` does: scroll half the area's height in one step,
/// clamped to the cumulative row count.
pub open spec fn spec_down_half(v: HexViewV) -> HexViewV {
    HexViewV { pos: spec_min(v.pos + v.area.height / 2, v.total as int) as u64, ..v }
}

/// What `up_half` does: scroll half the area's height back, clamped at the
/// top.
pub open spec fn spec_up_half(v: HexViewV) -> HexViewV {
    HexViewV {
        pos: if v.pos >= v.area.height / 2 {
            (v.pos - v.area.height / 2) as u64
        } else {
            0
        },
        ..v
    }
}

/// What `left` does: move the cursor a column left, stopping at the edge.
pub open spec fn spec_left(v: HexViewV) -> HexViewV {
    HexViewV {
        cursor: (if v.cursor.0 > 0 { (v.cursor.0 - 1) as u16 } else { 0 }, v.cursor.1),
        ..v
    }
}

/// What `right` does: move the cursor a column right, stopping at the edge.
pub open spec fn spec_right(v: HexViewV) -> HexViewV {
    HexViewV {
        cursor: (
            if v.cursor.0 + 1 < v.area.width {
                (v.cursor.0 + 1) as u16
            } else {
                v.cursor.0
            },
            v.cursor.1,
        ),
        ..v
    }
}

/// What `top` does: reset the scroll offset to the very first row.
pub open spec fn spec_top(v: HexViewV) -> HexViewV {
    HexViewV { pos: 0, ..v }
}

/// What `bottom` does: scroll to the cumulative row count of all blocks
/// before the last, and refresh the recorded cumulative total.
pub open spec fn spec_bottom(v: HexViewV) -> HexViewV {
    let n = v.row_counts.len() as int;
    HexViewV {
        pos: spec_min(spec_total_rows(v.folded, v.row_counts, n - 1), u64::MAX as int) as u64,
        total: spec_min(spec_total_rows(v.folded, v.row_counts, n), u64::MAX as int) as u64,
        ..v
    }
}

/// What `toggle_ascii` does: flip the display mode and nothing else.
pub open spec fn spec_toggle_ascii(v: HexViewV) -> HexViewV {
    HexViewV { ascii: !v.ascii, ..v }
}

/// What `fold` does: resolve the block under the cursor against the most
/// recent draw's extents and toggle its fold state; a cursor outside every
/// drawn extent changes nothing.
pub open spec fn spec_fold(v: HexViewV) -> HexViewV {
    match spec_resolve(v.block_areas, v.cursor.1 as int) {
        Option::Some((id, _)) => {
            if id < v.folded.len() {
                HexViewV { folded: v.folded.update(id as int, !v.folded[id as int]), ..v }
            } else {
                v
            }
        },
        Option::None => v,
    }
}

impl HexView {
    /// A viewport before any draw: offset and cursor at the origin, nothing
    /// folded, no cached counts.
    pub fn new() -> (r: HexView)
        ensures
            r@ == (HexViewV {
                pos: 0,
                cursor: (0, 0),
                area: Rect { x: 0, y: 0, width: 0, height: 0 },
                block_areas: Seq::empty(),
                folded: Seq::empty(),
                row_counts: Seq::empty(),
                total: 0,
                ascii: false,
            }),
            spec_hv_inv(r@),
    {
        let r = HexView {
            pos: 0,
            cursor: (0, 0),
            area: Rect { x: 0, y: 0, width: 0, height: 0 },
            block_areas: Vec::new(),
            folded: Vec::new(),
            row_counts: Vec::new(),
            total: 0,
            ascii: false,
        };
        proof {
            assert(r@ =~= (HexViewV {
                pos: 0,
                cursor: (0, 0),
                area: Rect { x: 0, y: 0, width: 0, height: 0 },
                block_areas: Seq::empty(),
                folded: Seq::empty(),
                row_counts: Seq::empty(),
                total: 0,
                ascii: false,
            }));
        }
        r
    }

    /// Moves the cursor one row down; at the area's bottom edge, scrolls
    /// one row instead.
    pub fn down(&mut self)
        requires
            spec_hv_inv(old(self)@),
        ensures
            final(self)@ == spec_down(old(self)@),
            spec_hv_inv(final(self)@),
    {
        if self.cursor.1 + 1 < self.area.height {
            self.cursor.1 = self.cursor.1 + 1;
        } else {
            if self.pos < self.total {
                self.pos = self.pos + 1;
            }
        }
        proof {
            assert(final(self)@ =~= spec_down(old(self)@));
        }
    }

    /// Scrolls half a page down in one step.
    pub fn down_half(&mut self)
        requires
            spec_hv_inv(old(self)@),
        ensures
            final(self)@ == spec_down_half(old(self)@),
            spec_hv_inv(final(self)@),
    {
        let step = (self.area.height / 2) as u64;
        if self.total - self.pos < step {
            self.pos = self.total;
        } else {
            self.pos = self.pos + step;
        }
        proof {
            assert(final(self)@ =~= spec_down_half(old(self)@));
        }
    }

    /// Moves the cursor one row up; at the top edge, scrolls one row back.
    pub fn up(&mut self)
        requires
            spec_hv_inv(old(self)@),
        ensures
            final(self)@ == spec_up(old(self)@),
            spec_hv_inv(final(self)@),
    {
        if self.cursor.1 == 0 {
            if self.pos > 0 {
                self.pos = self.pos - 1;
            }
        } else {
            self.cursor.1 = self.cursor.1 - 1;
        }
        proof {
            assert(final(self)@ =~= spec_up(old(self)@));
        }
    }

    /// Scrolls half a page up in one step.
    pub fn up_half(&mut self)
        requires
            spec_hv_inv(old(self)@),
        ensures
            final(self)@ == spec_up_half(old(self)@),
            spec_hv_inv(final(self)@),
    {
        let step = (self.area.height / 2) as u64;
        if self.pos >= step {
            self.pos = self.pos - step;
        } else {
            self.pos = 0;
        }
        proof {
            assert(final(self)@ =~= spec_up_half(old(self)@));
        }
    }

    /// Moves the cursor one column left, stopping at the edge.
    pub fn left(&mut self)
        requires
            spec_hv_inv(old(self)@),
        ensures
            final(self)@ == spec_left(old(self)@),
            spec_hv_inv(final(self)@),
    {
        if self.cursor.0 > 0 {
            self.cursor.0 = self.cursor.0 - 1;
        }
        proof {
            assert(final(self)@ =~= spec_left(old(self)@));
        }
    }

    /// Moves the cursor one column right, stopping at the edge.
    pub fn right(&mut self)
        requires
            spec_hv_inv(old(self)@),
        ensures
            final(self)@ == spec_right(old(self)@),
            spec_hv_inv(final(self)@),
    {
        if self.cursor.0 + 1 < self.area.width {
            self.cursor.0 = self.cursor.0 + 1;
        }
        proof {
            assert(final(self)@ =~= spec_right(old(self)@));
        }
    }

    /// Scrolls to the cumulative row count of all blocks before the last.
    pub fn bottom(&mut self)
        requires
            spec_hv_inv(old(self)@),
        ensures
            final(self)@ == spec_bottom(old(self)@),
            spec_hv_inv(final(self)@),
    {
        let n = self.row_counts.len();
        let ghost folded = self.folded@;
        let ghost counts = self.row_counts@;
        let mut acc: u64 = 0;
        let mut before: u64 = 0;
        for i in 0..n
            invariant
                n == self.row_counts@.len(),
                folded == self.folded@,
                counts == self.row_counts@,
                folded.len() == counts.len(),
                acc as int == spec_min(spec_total_rows(folded, counts, i as int), u64::MAX as int),
                before as int == spec_min(
                    spec_total_rows(folded, counts, i as int - 1),
                    u64::MAX as int,
                ),
        {
            before = acc;
            let eff: u64 = if self.folded[i] {
                1
            } else {
                self.row_counts[i]
            };
            if eff > u64::MAX - 1 || acc > u64::MAX - eff - 1 {
                acc = u64::MAX;
            } else {
                acc = acc + eff + 1;
            }
        }
        self.pos = before;
        self.total = acc;
        proof {
            lemma_total_rows_mono(folded, counts, counts.len() as int - 1, counts.len() as int);
            assert(final(self)@ =~= spec_bottom(old(self)@));
        }
    }

    /// Resets the scroll offset to the very first row.
    pub fn top(&mut self)
        requires
            spec_hv_inv(old(self)@),
        ensures
            final(self)@ == spec_top(old(self)@),
            spec_hv_inv(final(self)@),
    {
        self.pos = 0;
        proof {
            assert(final(self)@ =~= spec_top(old(self)@));
        }
    }

    /// Flips between hex-pair and printable-or-dot rendering.  Pure display
    /// mode: offsets, fold state and row counts are untouched.
    pub fn toggle_ascii(&mut self)
        requires
            spec_hv_inv(old(self)@),
        ensures
            final(self)@ == spec_toggle_ascii(old(self)@),
            spec_hv_inv(final(self)@),
    {
        self.ascii = !self.ascii;
        proof {
            assert(final(self)@ =~= spec_toggle_ascii(old(self)@));
        }
    }

    /// Resolves the block under the cursor against the extents recorded by
    /// the most recent draw: the block's index, and the cursor row relative
    /// to the block's first drawn row.  `None` when the cursor falls below
    /// everything drawn.
    pub fn id_under_cursor(&self) -> (r: Option<(u32, u16)>)
        ensures
            match r {
                Option::Some(p) => spec_resolve(self@.block_areas, self@.cursor.1 as int)
                    == Option::Some((p.0, p.1 as int)),
                Option::None => spec_resolve(self@.block_areas, self@.cursor.1 as int)
                    == Option::None::<(u32, int)>,
            },
    {
        let ghost areas = self@.block_areas;
        let mut cursor_y: u16 = self.cursor.1;
        proof {
            assert(areas.skip(0) =~= areas);
        }
        let n = self.block_areas.len();
        for i in 0..n
            invariant
                n == self.block_areas@.len(),
                areas == self@.block_areas,
                spec_resolve(areas.skip(i as int), cursor_y as int) == spec_resolve(
                    areas,
                    self@.cursor.1 as int,
                ),
        {
            let (id, rows) = self.block_areas[i];
            proof {
                assert(areas.skip(i as int)[0] == areas[i as int]);
                assert(areas.skip(i as int).drop_first() =~= areas.skip(i as int + 1));
            }
            if cursor_y > rows {
                cursor_y = cursor_y - rows - 1;
            } else {
                return Some((id, cursor_y));
            }
        }
        proof {
            assert(areas.skip(n as int) =~= Seq::<(u32, u16)>::empty());
        }
        None
    }

    /// Toggles the fold state of the block under the cursor; folding
    /// collapses the block to its single title row at the next draw.
    pub fn fold(&mut self)
        requires
            spec_hv_inv(old(self)@),
        ensures
            final(self)@ == spec_fold(old(self)@),
            spec_hv_inv(final(self)@),
    {
        let target = self.id_under_cursor();
        match target {
            Some((id, _)) => {
                if (id as usize) < self.folded.len() {
                    let flipped = !self.folded[id as usize];
                    self.folded[id as usize] = flipped;
                }
                proof {
                    assert(final(self)@ =~= spec_fold(old(self)@));
                }
            },
            None => {
                proof {
                    assert(final(self)@ =~= spec_fold(old(self)@));
                }
            },
        }
    }
}

/// The blocks the per-draw walk renders, with the rows each consumes: skip
/// whole blocks above the scroll offset; a scroll position landing on a
/// block's trailing separator shows that separator as a blank top row; the
/// first partially hidden block renders from its hidden row on; further
/// blocks follow while at least two rows of area remain.
pub open spec fn spec_layout(
    folded: Seq<bool>,
    counts: Seq<u64>,
    i: int,
    p: int,
    h: int,
) -> Seq<(u32, u16)>
    decreases counts.len() - i,
{
    if i < 0 || i >= counts.len() || h <= 0 {
        Seq::empty()
    } else {
        let rows = spec_eff_rows(folded, counts, i);
        if p >= rows + 1 {
            spec_layout(folded, counts, i + 1, p - rows - 1, h)
        } else if p == rows {
            spec_layout(folded, counts, i + 1, 0, h - 1)
        } else {
            let drawn = spec_min(rows - p, h);
            seq![(i as u32, drawn as u16)] + (if h - drawn - 1 >= 2 {
                spec_layout(folded, counts, i + 1, 0, h - drawn - 1)
            } else {
                Seq::empty()
            })
        }
    }
}

/// The lines one block contributes to the frame: `drawn` rows starting at
/// screen row `y`, the heading first, then the byte rows from data row
/// `hidden` on.
pub open spec fn spec_block_lines(
    b: Block,
    hidden: int,
    drawn: int,
    y: int,
    width: int,
    ascii: bool,
) -> Seq<PlacedLineV> {
    Seq::new(
        drawn as nat,
        |j: int|
            PlacedLineV {
                y: (y + j) as u16,
                spans: if j == 0 {
                    seq![spec_title_span(b.bv())]
                } else {
                    spec_row_spans(b.bv(), width, hidden + j - 1, ascii)
                },
            },
    )
}

/// The full frame the per-draw walk produces: the lines of each laid-out
/// block, at the screen rows the walk assigns; separator rows stay blank
/// and contribute no line.
pub open spec fn spec_frame(
    data: Seq<Block>,
    folded: Seq<bool>,
    counts: Seq<u64>,
    i: int,
    p: int,
    h: int,
    y: int,
    width: int,
    ascii: bool,
) -> Seq<PlacedLineV>
    decreases data.len() - i,
{
    if i < 0 || i >= data.len() || i >= counts.len() || h <= 0 {
        Seq::empty()
    } else {
        let rows = spec_eff_rows(folded, counts, i);
        if p >= rows + 1 {
            spec_frame(data, folded, counts, i + 1, p - rows - 1, h, y, width, ascii)
        } else if p == rows {
            spec_frame(data, folded, counts, i + 1, 0, h - 1, y + 1, width, ascii)
        } else {
            let drawn = spec_min(rows - p, h);
            spec_block_lines(data[i], p, drawn, y, width, ascii) + (if h - drawn - 1 >= 2 {
                spec_frame(data, folded, counts, i + 1, 0, h - drawn - 1, y + drawn + 1, width, ascii)
            } else {
                Seq::empty()
            })
        }
    }
}

impl HexView {
    /// Draws one frame: reclamps the cursor into `area`, refreshes the
    /// per-block row counts for its width, sizes the fold set to the data,
    /// refreshes the cumulative row count and clamps the scroll offset to
    /// it, then walks the blocks — skipping those wholly above the offset,
    /// rendering the first partially hidden one from its hidden row on, and
    /// continuing while at least two rows of area remain — recording each
    /// rendered block's index and drawn rows for the next fold or lookup.
    pub fn draw(&mut self, area: Rect, data: &Vec<Block>) -> (frame: Vec<PlacedLine>)
        requires
            spec_hv_inv(old(self)@),
            area.width >= 3,
            area.height >= 1,
            area.y + area.height <= u16::MAX,
            data@.len() <= u32::MAX,
            forall|i: int| 0 <= i < data@.len() ==> (#[trigger] data@[i]).inv(),
        ensures
            spec_hv_inv(final(self)@),
            final(self)@.area == area,
            final(self)@.ascii == old(self)@.ascii,
            final(self)@.cursor.0 < area.width,
            final(self)@.cursor.1 < area.height,
            final(self)@.cursor.0 as int == spec_min(old(self)@.cursor.0 as int, area.width - 1),
            final(self)@.cursor.1 as int == spec_min(old(self)@.cursor.1 as int, area.height - 1),
            final(self)@.row_counts.len() == data@.len(),
            forall|i: int|
                0 <= i < data@.len() ==> (#[trigger] final(self)@.row_counts[i]) as int
                    == spec_rows(data@[i].bv(), area.width as int),
            final(self)@.folded == (if old(self)@.folded.len() == data@.len() {
                old(self)@.folded
            } else {
                Seq::new(data@.len(), |i: int| false)
            }),
            final(self)@.total as int == spec_min(
                spec_total_rows(final(self)@.folded, final(self)@.row_counts, data@.len() as int),
                u64::MAX as int,
            ),
            final(self)@.pos as int == spec_min(old(self)@.pos as int, final(self)@.total as int),
            final(self)@.block_areas == spec_layout(
                final(self)@.folded,
                final(self)@.row_counts,
                0,
                final(self)@.pos as int,
                area.height as int,
            ),
            spec_frame_view(frame@) == spec_frame(
                data@,
                final(self)@.folded,
                final(self)@.row_counts,
                0,
                final(self)@.pos as int,
                area.height as int,
                area.y as int,
                area.width as int,
                old(self)@.ascii,
            ),
    {
        // Reclamp the cursor into the new bounds.
        if self.cursor.0 >= area.width {
            self.cursor.0 = area.width - 1;
        }
        if self.cursor.1 >= area.height {
            self.cursor.1 = area.height - 1;
        }
        self.area = area;
        // Row counts at this width.
        let n = data.len();
        let mut counts_v: Vec<u64> = Vec::new();
        for i in 0..n
            invariant
                n == data@.len(),
                n <= u32::MAX,
                area.width >= 3,
                forall|k: int| 0 <= k < n ==> (#[trigger] data@[k]).inv(),
                counts_v@.len() == i,
                forall|k: int|
                    0 <= k < i ==> (#[trigger] counts_v@[k]) as int == spec_rows(
                        data@[k].bv(),
                        area.width as int,
                    ),
                forall|k: int| 0 <= k < i ==> (#[trigger] counts_v@[k]) <= 0x1_0000_0001,
        {
            let r = data[i].rows(area.width);
            proof {
                data@[i as int].inv_properties();
                let bv = data@[i as int].bv();
                if bv.error == crate::pcapng::BlockErrorKind::NoError {
                    assert(r <= 0x1_0000_0001) by (nonlinear_arith)
                        requires
                            r as int == crate::util::spec_div_ceil(
                                bv.length,
                                crate::pcapng::spec_bytes_per_row(area.width as int),
                            ) + 1,
                            crate::pcapng::spec_bytes_per_row(area.width as int) >= 1,
                            0 <= bv.length <= u32::MAX,
                    ;
                }
            }
            counts_v.push(r);
        }
        self.row_counts = counts_v;
        // Size the fold set to the data.
        if self.folded.len() != n {
            let mut f: Vec<bool> = Vec::new();
            for i in 0..n
                invariant
                    f@.len() == i,
                    forall|k: int| 0 <= k < i ==> (#[trigger] f@[k]) == false,
            {
                f.push(false);
            }
            proof {
                assert(f@ =~= Seq::new(n as nat, |i: int| false));
            }
            self.folded = f;
        }
        // Cumulative rows of the whole sequence, saturated.
        let ghost folded_g = self.folded@;
        let ghost counts_g = self.row_counts@;
        let mut total: u64 = 0;
        for i in 0..n
            invariant
                n == counts_g.len(),
                folded_g.len() == counts_g.len(),
                folded_g == self.folded@,
                counts_g == self.row_counts@,
                total as int == spec_min(
                    spec_total_rows(folded_g, counts_g, i as int),
                    u64::MAX as int,
                ),
        {
            let eff: u64 = if self.folded[i] {
                1
            } else {
                self.row_counts[i]
            };
            if eff > u64::MAX - 1 || total > u64::MAX - eff - 1 {
                total = u64::MAX;
            } else {
                total = total + eff + 1;
            }
        }
        self.total = total;
        if self.pos > total {
            self.pos = total;
        }
        // The walk.
        self.block_areas = Vec::new();
        let ghost cur_g = self.cursor;
        let ghost total_g = self.total;
        let mut frame: Vec<PlacedLine> = Vec::new();
        let ghost ascii_g = self.ascii;
        let ghost pos_g = self.pos;
        let ghost target_layout = spec_layout(
            folded_g,
            counts_g,
            0,
            self.pos as int,
            area.height as int,
        );
        let ghost target_frame = spec_frame(
            data@,
            folded_g,
            counts_g,
            0,
            self.pos as int,
            area.height as int,
            area.y as int,
            area.width as int,
            ascii_g,
        );
        let mut i: usize = 0;
        let mut p: u64 = self.pos;
        let mut y: u16 = area.y;
        let mut h: u16 = area.height;
        let mut stop = false;
        proof {
            assert(self.block_areas@ =~= Seq::<(u32, u16)>::empty());
            assert(spec_frame_view(frame@) =~= Seq::<PlacedLineV>::empty());
            assert(self.block_areas@ + target_layout =~= target_layout);
            assert(spec_frame_view(frame@) + target_frame =~= target_frame);
        }
        while !stop && i < n && h > 0
            invariant
                n == data@.len(),
                n == counts_g.len(),
                n <= u32::MAX,
                folded_g.len() == counts_g.len(),
                folded_g == self.folded@,
                counts_g == self.row_counts@,
                ascii_g == self.ascii,
                self.area == area,
                self.cursor == cur_g,
                self.pos == pos_g,
                self.total == total_g,
                area.width >= 3,
                area.y + area.height <= u16::MAX,
                forall|k: int| 0 <= k < n ==> (#[trigger] data@[k]).inv(),
                forall|k: int|
                    0 <= k < n ==> (#[trigger] counts_g[k]) as int == spec_rows(
                        data@[k].bv(),
                        area.width as int,
                    ),
                forall|k: int| 0 <= k < n ==> (#[trigger] counts_g[k]) <= 0x1_0000_0001,
                i <= n,
                h <= area.height,
                y as int == area.y + (area.height - h),
                forall|k: int|
                    0 <= k < self.block_areas@.len() ==> (#[trigger] self.block_areas@[k]).0
                        < counts_g.len(),
                !stop ==> target_layout == self.block_areas@ + spec_layout(
                    folded_g,
                    counts_g,
                    i as int,
                    p as int,
                    h as int,
                ),
                !stop ==> target_frame == spec_frame_view(frame@) + spec_frame(
                    data@,
                    folded_g,
                    counts_g,
                    i as int,
                    p as int,
                    h as int,
                    y as int,
                    area.width as int,
                    ascii_g,
                ),
                stop ==> target_layout == self.block_areas@,
                stop ==> target_frame == spec_frame_view(frame@),
            decreases n - i + (if stop {
                0int
            } else {
                1int
            }),
        {
            let eff: u64 = if self.folded[i] {
                1
            } else {
                self.row_counts[i]
            };
            if p >= eff + 1 {
                p = p - eff - 1;
                i = i + 1;
            } else if p == eff {
                y = y + 1;
                h = h - 1;
                p = 0;
                i = i + 1;
            } else {
                let barea = Rect { x: area.x, y, width: area.width, height: h };
                let (drawn, lines) = crate::pcapng::draw_block(
                    &data[i],
                    barea,
                    p,
                    self.folded[i],
                    self.ascii,
                );
                let ghost base_frame = spec_frame_view(frame@);
                let ghost base_areas = self.block_areas@;
                self.block_areas.push((i as u32, drawn));
                proof {
                    assert(self.block_areas@ =~= base_areas + seq![(i as u32, drawn)]);
                }
                let mut lines = lines;
                let ghost lv = lines@;
                let ghost blines = spec_block_lines(
                    data@[i as int],
                    p as int,
                    drawn as int,
                    y as int,
                    area.width as int,
                    ascii_g,
                );
                proof {
                    assert(blines =~= Seq::new(
                        lv.len(),
                        |j: int| PlacedLineV { y: (y + j) as u16, spans: spec_line_view(lv[j]@) },
                    ));
                    assert(lines@ =~= lv.skip(0));
                    assert(blines.take(0) =~= Seq::<PlacedLineV>::empty());
                    assert(spec_frame_view(frame@) =~= base_frame + blines.take(0));
                }
                let mut j: usize = 0;
                while lines.len() > 0
                    invariant
                        j + lines@.len() == lv.len(),
                        lv.len() == drawn,
                        drawn <= h,
                        h <= area.height,
                        y as int == area.y + (area.height - h),
                        area.y + area.height <= u16::MAX,
                        lines@ == lv.skip(j as int),
                        blines == Seq::new(
                            lv.len(),
                            |jj: int| PlacedLineV {
                                y: (y + jj) as u16,
                                spans: spec_line_view(lv[jj]@),
                            },
                        ),
                        spec_frame_view(frame@) == base_frame + blines.take(j as int),
                    decreases lines@.len(),
                {
                    let spans = lines.remove(0);
                    proof {
                        assert(lv.skip(j as int)[0] == lv[j as int]);
                        assert(lv.skip(j as int).drop_first() =~= lv.skip(j as int + 1));
                    }
                    frame.push(PlacedLine { y: y + (j as u16), spans });
                    proof {
                        assert(blines.take(j as int + 1) =~= blines.take(j as int).push(
                            blines[j as int],
                        ));
                        assert(spec_frame_view(frame@) =~= (base_frame + blines.take(j as int)).push(
                            blines[j as int],
                        ));
                        assert((base_frame + blines.take(j as int)).push(blines[j as int]) =~= base_frame
                            + blines.take(j as int + 1));
                    }
                    j = j + 1;
                }
                proof {
                    assert(blines.take(lv.len() as int) =~= blines);
                    assert(spec_frame_view(frame@) =~= base_frame + blines);
                }
                if (h as u32) <= (drawn as u32) + 2 {
                    stop = true;
                    proof {
                        let rest_l = spec_layout(folded_g, counts_g, i as int, p as int, h as int);
                        let rest_f = spec_frame(
                            data@,
                            folded_g,
                            counts_g,
                            i as int,
                            p as int,
                            h as int,
                            y as int,
                            area.width as int,
                            ascii_g,
                        );
                        assert(rest_l == seq![(i as u32, drawn)] + Seq::<(u32, u16)>::empty());
                        assert(rest_l =~= seq![(i as u32, drawn)]);
                        assert(target_layout =~= base_areas + seq![(i as u32, drawn)]);
                        assert(rest_f =~= blines);
                        assert(target_frame =~= base_frame + blines);
                    }
                } else {
                    proof {
                        let rest_l = spec_layout(folded_g, counts_g, i as int, p as int, h as int);
                        let rest_f = spec_frame(
                            data@,
                            folded_g,
                            counts_g,
                            i as int,
                            p as int,
                            h as int,
                            y as int,
                            area.width as int,
                            ascii_g,
                        );
                        assert(rest_l == seq![(i as u32, drawn)] + spec_layout(
                            folded_g,
                            counts_g,
                            i as int + 1,
                            0,
                            h as int - drawn - 1,
                        ));
                        assert(rest_f == blines + spec_frame(
                            data@,
                            folded_g,
                            counts_g,
                            i as int + 1,
                            0,
                            h as int - drawn - 1,
                            y as int + drawn + 1,
                            area.width as int,
                            ascii_g,
                        ));
                        assert(target_layout =~= (base_areas + seq![(i as u32, drawn)]) + spec_layout(
                            folded_g,
                            counts_g,
                            i as int + 1,
                            0,
                            h as int - drawn - 1,
                        ));
                        assert(target_frame =~= (base_frame + blines) + spec_frame(
                            data@,
                            folded_g,
                            counts_g,
                            i as int + 1,
                            0,
                            h as int - drawn - 1,
                            y as int + drawn + 1,
                            area.width as int,
                            ascii_g,
                        ));
                    }
                    y = y + drawn + 1;
                    h = h - drawn - 1;
                    p = 0;
                    i = i + 1;
                }
            }
        }
        proof {
            if !stop {
                assert(spec_layout(folded_g, counts_g, i as int, p as int, h as int)
                    =~= Seq::<(u32, u16)>::empty());
                assert(spec_frame(
                    data@,
                    folded_g,
                    counts_g,
                    i as int,
                    p as int,
                    h as int,
                    y as int,
                    area.width as int,
                    ascii_g,
                ) =~= Seq::<PlacedLineV>::empty());
                assert(target_layout =~= self.block_areas@);
                assert(target_frame =~= spec_frame_view(frame@));
            }
        }
        frame
    }
}

/// The cumulative row count grows with the number of blocks counted.
pub proof fn lemma_total_rows_mono(folded: Seq<bool>, counts: Seq<u64>, m: int, n: int)
    requires
        m <= n,
    ensures
        spec_total_rows(folded, counts, m) <= spec_total_rows(folded, counts, n),
    decreases n - m,
{
    if m < n {
        lemma_total_rows_mono(folded, counts, m, n - 1);
    }
}

/// Every navigation operation preserves the viewport's well-formedness, so
/// any sequence of them may run between draws; each draw then bounds the
/// cursor by the area it was given.
pub proof fn lemma_nav_preserves_inv(v: HexViewV)
    requires
        spec_hv_inv(v),
    ensures
        spec_hv_inv(spec_down(v)),
        spec_hv_inv(spec_up(v)),
        spec_hv_inv(spec_down_half(v)),
        spec_hv_inv(spec_up_half(v)),
        spec_hv_inv(spec_left(v)),
        spec_hv_inv(spec_right(v)),
        spec_hv_inv(spec_top(v)),
        spec_hv_inv(spec_bottom(v)),
        spec_hv_inv(spec_toggle_ascii(v)),
        spec_hv_inv(spec_fold(v)),
{
    lemma_total_rows_mono(v.folded, v.row_counts, -1, v.row_counts.len() as int - 1);
    lemma_total_rows_mono(v.folded, v.row_counts, v.row_counts.len() as int - 1, v.row_counts.len() as int);
}

/// Fold is idempotent: toggling the fold under an unmoved cursor twice
/// restores the fold set — and with it every block's effective row count —
/// and leaves offset, cursor, extents, caches and mode untouched.
pub proof fn lemma_fold_toggle_idempotent(v: HexViewV)
    ensures
        spec_fold(spec_fold(v)).folded =~= v.folded,
        spec_fold(spec_fold(v)) =~= v,
{
    let v1 = spec_fold(v);
    assert(v1.block_areas == v.block_areas && v1.cursor == v.cursor);
    match spec_resolve(v.block_areas, v.cursor.1 as int) {
        Option::Some((id, _)) => {
            if id < v.folded.len() {
                assert(spec_fold(v1).folded =~= v.folded);
            }
        },
        Option::None => {},
    }
}

/// Jumping to the bottom and then to the top brings the offset back to
/// exactly zero.
pub proof fn lemma_bottom_then_top(v: HexViewV)
    ensures
        spec_top(spec_bottom(v)).pos == 0,
{
}

} // verus!

