//! The visualizer: which bars a column shows, which samples a bar shows, and the cells drawn.

use vstd::arithmetic::div_mod::{
    lemma_div_is_ordered, lemma_div_pos_is_pos, lemma_fundamental_div_mod,
    lemma_fundamental_div_mod_converse,
};
use vstd::prelude::*;

verus! {

/// Where the height of a column on the screen comes from.
#[derive(Clone, Copy, Debug, PartialEq, Eq, Structural)]
pub enum BarColumn {
    /// The only bar there is.
    Copy,
    /// Between two neighbouring bars; at the last one both are the same.
    Blend { left: usize, right: usize },
}

/// The bars that a column lies between, when `bars` bars are spread over `width` columns.
pub open spec fn bar_column(bars: int, width: int, column: int) -> BarColumn {
    if bars == 1 {
        BarColumn::Copy
    } else {
        let span = if width > 1 {
            width - 1
        } else {
            1
        };
        let left = column * (bars - 1) / span;
        BarColumn::Blend {
            left: left as usize,
            right: if left + 1 < bars - 1 {
                (left + 1) as usize
            } else {
                (bars - 1) as usize
            },
        }
    }
}

/// The source of every column; there are no columns without bars.
pub open spec fn bar_columns(bars: int, width: int) -> Seq<BarColumn> {
    if bars == 0 {
        Seq::empty()
    } else {
        Seq::new(width as nat, |x: int| bar_column(bars, width, x))
    }
}

/// A column lies between bars that are there.
proof fn lemma_column_is_inside(bars: int, width: int, column: int)
    requires
        bars >= 2,
        0 <= column < width,
    ensures
        ({
            let span = if width > 1 {
                width - 1
            } else {
                1
            };
            0 <= column * (bars - 1) / span <= bars - 1
        }),
{
    let span = if width > 1 {
        width - 1
    } else {
        1
    };
    assert(0 <= column * (bars - 1) <= span * (bars - 1)) by (nonlinear_arith)
        requires
            0 <= column <= span,
            bars >= 2,
    ;
    assert(span * (bars - 1) == (bars - 1) * span) by (nonlinear_arith);
    lemma_fundamental_div_mod_converse((bars - 1) * span, span, bars - 1, 0);
    lemma_div_is_ordered(column * (bars - 1), (bars - 1) * span, span);
    lemma_div_pos_is_pos(column * (bars - 1), span);
}

/// Spreads bars over the columns of the screen.
pub fn resample_bars(bars: usize, width: usize) -> (columns: Vec<BarColumn>)
    ensures
        columns@ == bar_columns(bars as int, width as int),
{
    let mut columns: Vec<BarColumn> = Vec::new();
    if width == 0 || bars == 0 {
        assert(columns@ =~= bar_columns(bars as int, width as int));
        return columns;
    }
    let span: usize = if width > 1 {
        width - 1
    } else {
        1
    };
    let mut x: usize = 0;
    while x < width
        invariant
            x <= width,
            bars > 0,
            span == (if width > 1 {
                width - 1
            } else {
                1
            }),
            columns@ == bar_columns(bars as int, width as int).take(x as int),
        decreases width - x,
    {
        let column: BarColumn = if bars == 1 {
            BarColumn::Copy
        } else {
            proof {
                lemma_column_is_inside(bars as int, width as int, x as int);
            }
            assert(0 <= x * (bars - 1) <= 0xffff_ffff_ffff_ffff * 0xffff_ffff_ffff_ffff)
                by (nonlinear_arith)
                requires
                    0 <= x <= 0xffff_ffff_ffff_ffff,
                    1 <= bars <= 0xffff_ffff_ffff_ffff,
            ;
            let left: usize = (x as u128 * (bars - 1) as u128 / span as u128) as usize;
            let right: usize = if left < bars - 2 {
                left + 1
            } else {
                bars - 1
            };
            BarColumn::Blend { left, right }
        };
        columns.push(column);
        assert(bar_columns(bars as int, width as int).take(x as int).push(column)
            =~= bar_columns(bars as int, width as int).take(x + 1));
        x = x + 1;
    }
    assert(columns@ =~= bar_columns(bars as int, width as int));
    columns
}

/// The first column shows the first bar; the last of several columns shows the last bar.
pub proof fn columns_reach_from_end_to_end(bars: int, width: int)
    requires
        2 <= bars <= usize::MAX,
        width >= 2,
    ensures
        bar_columns(bars, width)[0] matches BarColumn::Blend { left, .. } && left == 0,
        bar_columns(bars, width)[width - 1] matches BarColumn::Blend { left, right } && left
            == bars - 1 && right == bars - 1,
{
    lemma_column_is_inside(bars, width, 0);
    assert(0 * (bars - 1) == 0) by (nonlinear_arith);
    assert(0int / (width - 1) == 0) by {
        vstd::arithmetic::div_mod::lemma_div_basics(width - 1);
    }
    assert((width - 1) * (bars - 1) == (bars - 1) * (width - 1)) by (nonlinear_arith);
    lemma_fundamental_div_mod_converse((width - 1) * (bars - 1), width - 1, bars - 1, 0);
}

/// Every column lies between bars that are there, neighbours or one and the same.
pub proof fn columns_lie_between_bars(bars: int, width: int, column: int)
    requires
        1 <= bars <= usize::MAX,
        0 <= column < width,
    ensures
        bar_columns(bars, width)[column] matches BarColumn::Blend { left, right } ==> left <= right
            <= left + 1 && right < bars,
{
    if bars >= 2 {
        lemma_column_is_inside(bars, width, column);
    }
}

/// A run of frames, from `start` up to but not including `end`.
#[derive(Clone, Copy, Debug, PartialEq, Eq, Structural)]
pub struct Band {
    pub start: usize,
    pub end: usize,
}

/// How many frames a bar stands for: an equal share, and one at least.
pub open spec fn band_len(frames: int, bars: int) -> int {
    let share = frames / (if bars > 1 {
        bars
    } else {
        1
    });
    if share > 1 {
        share
    } else {
        1
    }
}

/// The frames that a bar stands for, if any are left for it.
pub open spec fn band(frames: int, bars: int, bar: int) -> Option<Band> {
    let start = bar * band_len(frames, bars);
    let end = (bar + 1) * band_len(frames, bars);
    let end = if end < frames {
        end
    } else {
        frames
    };
    if start < end {
        Some(Band { start: start as usize, end: end as usize })
    } else {
        None
    }
}

/// No bar's frames begin beyond what a machine can count.
proof fn lemma_band_fits(frames: int, bars: int, bar: int)
    requires
        frames >= 0,
        0 <= bar < bars,
    ensures
        0 <= bar * band_len(frames, bars) <= (bar + 1) * band_len(frames, bars),
        (bar + 1) * band_len(frames, bars) <= (if frames < bars {
            bars
        } else {
            frames
        }),
{
    let len = band_len(frames, bars);
    let share = frames / (if bars > 1 {
        bars
    } else {
        1
    });
    assert(0 <= bar * len <= (bar + 1) * len <= bars * len) by (nonlinear_arith)
        requires
            0 <= bar < bars,
            len >= 1,
    ;
    lemma_fundamental_div_mod(frames, bars);
    assert(bars * share == share * bars) by (nonlinear_arith);
    if share > 1 {
        assert(bars * len <= frames);
    } else {
        assert(bars * len == bars);
    }
}

/// Divides the frames of a batch of samples among the bars, in order.
pub fn bands(frames: usize, bars: usize) -> (list: Vec<Option<Band>>)
    ensures
        list@ == Seq::new(bars as nat, |i: int| band(frames as int, bars as int, i)),
{
    let ghost all = Seq::new(bars as nat, |i: int| band(frames as int, bars as int, i));
    let share: usize = frames / (if bars > 1 {
        bars
    } else {
        1
    });
    let len: usize = if share > 1 {
        share
    } else {
        1
    };
    let mut list: Vec<Option<Band>> = Vec::new();
    let mut i: usize = 0;
    while i < bars
        invariant
            i <= bars,
            len == band_len(frames as int, bars as int),
            all == Seq::new(bars as nat, |i: int| band(frames as int, bars as int, i)),
            list@ == all.take(i as int),
        decreases bars - i,
    {
        proof {
            lemma_band_fits(frames as int, bars as int, i as int);
        }
        let start: usize = i * len;
        let full: usize = (i + 1) * len;
        let end: usize = if full < frames {
            full
        } else {
            frames
        };
        list.push(
            if start < end {
                Some(Band { start, end })
            } else {
                None
            },
        );
        assert(all.take(i as int).push(all[i as int]) =~= all.take(i + 1));
        i = i + 1;
    }
    assert(all.take(i as int) =~= all);
    list
}

/// The bars share out the frames from the first on, each frame to one bar at most: a frame
/// belongs to the bar that its position divided by the band's length gives.
pub proof fn bands_share_out_the_frames(frames: int, bars: int, bar: int, frame: int)
    requires
        0 <= frames <= usize::MAX,
        0 <= bar < bars <= usize::MAX,
        0 <= frame < frames,
    ensures
        (band(frames, bars, bar) matches Some(band) && band.start <= frame < band.end) <==> frame
            / band_len(frames, bars) == bar,
{
    let len = band_len(frames, bars);
    lemma_band_fits(frames, bars, bar);
    if frame / len == bar {
        lemma_fundamental_div_mod(frame, len);
        assert(len * bar == bar * len) by (nonlinear_arith);
        assert((bar + 1) * len == bar * len + len) by (nonlinear_arith);
    }
    if bar * len <= frame < (bar + 1) * len {
        assert((bar + 1) * len == bar * len + len) by (nonlinear_arith);
        lemma_fundamental_div_mod_converse(frame, len, bar, frame - bar * len);
    }
}

/// How much of a column is filled: whole rows, and eighths of the row above them.
#[derive(Clone, Copy, Debug, PartialEq, Eq, Structural)]
pub struct ColumnFill {
    pub whole_rows: usize,
    pub eighths: usize,
}

/// Which of the theme's colours a cell is drawn in.
#[derive(Clone, Copy, Debug, PartialEq, Eq, Structural)]
pub enum Tone {
    Secondary,
    Accent,
    Foreground,
}

/// One character of the visualizer.
#[derive(Clone, Copy, Debug, PartialEq, Eq, Structural)]
pub struct Cell {
    pub glyph: char,
    pub tone: Tone,
}

/// The block for a row that is filled in part.
pub open spec fn partial_block(eighths: int) -> char {
    if eighths <= 1 {
        '▁'
    } else if eighths == 2 {
        '▂'
    } else if eighths == 3 {
        '▃'
    } else if eighths == 4 {
        '▄'
    } else if eighths == 5 {
        '▅'
    } else if eighths == 6 {
        '▆'
    } else if eighths == 7 {
        '▇'
    } else {
        '█'
    }
}

/// What a column shows in the row that is the `above`th from the bottom, counted from 1.
pub open spec fn glyph(fill: ColumnFill, above: int) -> char {
    if above <= fill.whole_rows {
        '█'
    } else if above == fill.whole_rows + 1 {
        partial_block(fill.eighths as int)
    } else {
        ' '
    }
}

/// The colour of a row: the upper, the middle or the lower third.
pub open spec fn tone(row: int, height: int) -> Tone {
    if row < height / 3 {
        Tone::Secondary
    } else if row < (height * 2) / 3 {
        Tone::Accent
    } else {
        Tone::Foreground
    }
}

/// The cell of a column in a row, counted from the top.
pub open spec fn cell(fill: ColumnFill, row: int, height: int) -> Cell {
    Cell { glyph: glyph(fill, height - row), tone: tone(row, height) }
}

/// The cells of a row.
pub open spec fn cell_row(fills: Seq<ColumnFill>, row: int, height: int) -> Seq<Cell> {
    Seq::new(fills.len(), |x: int| cell(fills[x], row, height))
}

/// The rows of the visualizer from the top; a single empty one where there is nothing to draw.
pub open spec fn cell_rows(fills: Seq<ColumnFill>, height: int) -> Seq<Seq<Cell>> {
    if height == 0 || fills.len() == 0 {
        seq![Seq::empty()]
    } else {
        Seq::new(height as nat, |row: int| cell_row(fills, row, height))
    }
}

/// The cells that a list of rows holds.
pub open spec fn cells_of(rows: Seq<Vec<Cell>>) -> Seq<Seq<Cell>> {
    Seq::new(rows.len(), |i: int| rows[i]@)
}

fn block(eighths: usize) -> (glyph: char)
    ensures
        glyph == partial_block(eighths as int),
{
    match eighths {
        0 | 1 => '▁',
        2 => '▂',
        3 => '▃',
        4 => '▄',
        5 => '▅',
        6 => '▆',
        7 => '▇',
        _ => '█',
    }
}

/// The cells to draw for columns that are filled so far, in so many rows.
pub fn render_visualizer_lines(fills: &[ColumnFill], height: usize) -> (rows: Vec<Vec<Cell>>)
    requires
        height * 2 <= usize::MAX,
        forall|i: int| 0 <= i < fills@.len() ==> (#[trigger] fills@[i]).whole_rows <= height,
    ensures
        cells_of(rows@) == cell_rows(fills@, height as int),
        rows@.len() == cell_rows(fills@, height as int).len(),
        forall|r: int|
            0 <= r < rows@.len() ==> (#[trigger] rows@[r])@ == cell_rows(fills@, height as int)[r],
{
    let mut rows: Vec<Vec<Cell>> = Vec::new();
    if height == 0 || fills.len() == 0 {
        rows.push(Vec::new());
        assert(cells_of(rows@) =~= cell_rows(fills@, height as int));
        assert(rows@[0]@ =~= cell_rows(fills@, height as int)[0]);
        return rows;
    }
    let mut row: usize = 0;
    while row < height
        invariant
            row <= height,
            height * 2 <= usize::MAX,
            forall|i: int| 0 <= i < fills@.len() ==> (#[trigger] fills@[i]).whole_rows <= height,
            rows@.len() == row,
            forall|r: int|
                0 <= r < row ==> (#[trigger] rows@[r])@ == cell_row(fills@, r, height as int),
        decreases height - row,
    {
        let above: usize = height - row;
        let tone: Tone = if row < height / 3 {
            Tone::Secondary
        } else if row < (height * 2) / 3 {
            Tone::Accent
        } else {
            Tone::Foreground
        };
        let mut cells: Vec<Cell> = Vec::new();
        let mut x: usize = 0;
        while x < fills.len()
            invariant
                x <= fills@.len(),
                row < height,
                above == height - row,
                height * 2 <= usize::MAX,
                tone == self::tone(row as int, height as int),
                forall|i: int|
                    0 <= i < fills@.len() ==> (#[trigger] fills@[i]).whole_rows <= height,
                cells@.len() == x,
                forall|k: int|
                    0 <= k < x ==> #[trigger] cells@[k] == cell(
                        fills@[k],
                        row as int,
                        height as int,
                    ),
            decreases fills@.len() - x,
        {
            let fill: ColumnFill = fills[x];
            assert(fills@[x as int].whole_rows <= height);
            let glyph: char = if above <= fill.whole_rows {
                '█'
            } else if above == fill.whole_rows + 1 {
                block(fill.eighths)
            } else {
                ' '
            };
            cells.push(Cell { glyph, tone });
            x = x + 1;
        }
        assert(cells@ =~= cell_row(fills@, row as int, height as int));
        rows.push(cells);
        row = row + 1;
    }
    assert(cells_of(rows@) =~= cell_rows(fills@, height as int));
    rows
}

/// How much a block covers, in eighths.
pub open spec fn coverage(glyph: char) -> int {
    if glyph == '▁' {
        1
    } else if glyph == '▂' {
        2
    } else if glyph == '▃' {
        3
    } else if glyph == '▄' {
        4
    } else if glyph == '▅' {
        5
    } else if glyph == '▆' {
        6
    } else if glyph == '▇' {
        7
    } else if glyph == '█' {
        8
    } else {
        0
    }
}

/// A column that is filled no further than another.
pub open spec fn at_most_as_full(fill: ColumnFill, other: ColumnFill) -> bool {
    ||| fill.whole_rows < other.whole_rows
    ||| fill.whole_rows == other.whole_rows && fill.eighths <= other.eighths
}

/// A column shows in no row more than a column that is at least as full.
pub proof fn fuller_columns_never_show_less(
    fills: Seq<ColumnFill>,
    height: int,
    row: int,
    x: int,
    other: int,
)
    requires
        0 <= row < height,
        0 <= x < fills.len(),
        0 <= other < fills.len(),
        at_most_as_full(fills[x], fills[other]),
    ensures
        coverage(cell_rows(fills, height)[row][x].glyph) <= coverage(
            cell_rows(fills, height)[row][other].glyph,
        ),
{
}

/// A column that fills all rows is full in every one of them.
pub proof fn full_columns_are_full_in_every_row(
    fills: Seq<ColumnFill>,
    height: int,
    row: int,
    x: int,
)
    requires
        0 <= row < height,
        0 <= x < fills.len(),
        fills[x].whole_rows >= height,
    ensures
        cell_rows(fills, height)[row][x].glyph == '█',
{
}

/// A column is drawn from the bottom up without gaps: below a cell that shows anything all cells
/// are full. So there are full cells, above them at most one that is filled in part, and above
/// that only blank ones.
pub proof fn columns_have_no_gaps(
    fills: Seq<ColumnFill>,
    height: int,
    upper: int,
    lower: int,
    x: int,
)
    requires
        0 <= upper < lower < height,
        0 <= x < fills.len(),
        cell_rows(fills, height)[upper][x].glyph != ' ',
    ensures
        cell_rows(fills, height)[lower][x].glyph == '█',
{
}

/// Every column shows something in the bottom row, however little it is filled.
pub proof fn the_bottom_row_is_never_blank(fills: Seq<ColumnFill>, height: int, x: int)
    requires
        height > 0,
        0 <= x < fills.len(),
    ensures
        cell_rows(fills, height)[height - 1][x].glyph != ' ',
{
}

/// The colours come in three bands, from the top down: secondary, accent, foreground.
pub proof fn tones_come_in_order(upper: int, lower: int, height: int)
    requires
        0 <= upper <= lower < height,
    ensures
        tone(upper, height) == Tone::Foreground ==> tone(lower, height) == Tone::Foreground,
        tone(lower, height) == Tone::Secondary ==> tone(upper, height) == Tone::Secondary,
{
}

/// Columns are spread evenly over the bars: a column lies at or behind its left bar and before the
/// next, where the first column lies at the first bar and the last at the last. Its right bar is the
/// next one, or the last where there is no other. A single bar serves for all columns, and no bars
/// give no columns.
pub proof fn columns_are_spread_evenly(bars: int, width: int, column: int)
    requires
        0 <= bars <= usize::MAX,
        0 <= column < width,
    ensures
        bars > 0 ==> bar_columns(bars, width).len() == width,
        bars == 0 ==> bar_columns(bars, width).len() == 0,
        bars == 1 ==> bar_columns(bars, width)[column] is Copy,
        bars >= 2 ==> (bar_columns(bars, width)[column] matches BarColumn::Blend { left, right } && {
            &&& width > 1 ==> left * (width - 1) <= column * (bars - 1) < (left + 1) * (width - 1)
            &&& width == 1 ==> left == 0
            &&& left + 1 < bars ==> right == left + 1
            &&& left + 1 == bars ==> right == left
            &&& left < bars
        }),
{
    if bars >= 2 {
        lemma_column_is_inside(bars, width, column);
        let span = if width > 1 {
            width - 1
        } else {
            1
        };
        let left = column * (bars - 1) / span;
        lemma_fundamental_div_mod(column * (bars - 1), span);
        assert(span * left == left * span) by (nonlinear_arith);
        assert((left + 1) * span == left * span + span) by (nonlinear_arith);
        if width == 1 {
            assert(column == 0);
            assert(0 * (bars - 1) == 0) by (nonlinear_arith);
        }
    }
}

/// Frames are shared out evenly: with `len` frames for each bar, which is as many as all bars can
/// have, but one at least, a bar has those from `len` times its place on, as far as there are any.
pub proof fn frames_are_shared_out_evenly(frames: int, bars: int, len: int, bar: int)
    requires
        0 <= frames <= usize::MAX,
        0 <= bar < bars <= usize::MAX,
        len >= 1,
        len * bars <= frames || len == 1,
        frames < (len + 1) * bars,
    ensures
        bar * len >= frames ==> band(frames, bars, bar) is None,
        bar * len < frames ==> (band(frames, bars, bar) matches Some(found) && {
            &&& found.start == bar * len
            &&& (bar + 1) * len <= frames ==> found.end == (bar + 1) * len
            &&& (bar + 1) * len > frames ==> found.end == frames
        }),
{
    let share = frames / bars;
    lemma_fundamental_div_mod(frames, bars);
    assert(bars * share == share * bars) by (nonlinear_arith);
    assert((share + 1) * bars == share * bars + bars) by (nonlinear_arith);
    if share < len - 1 || share < 1 && len > 1 {
        assert((share + 1) * bars <= len * bars) by (nonlinear_arith)
            requires
                share + 1 <= len,
                bars > 0,
        ;
    }
    if share < len {
        assert((share + 1) * bars <= len * bars) by (nonlinear_arith)
            requires
                share + 1 <= len,
                bars > 0,
        ;
    }
    if share > len {
        assert((len + 1) * bars <= share * bars) by (nonlinear_arith)
            requires
                len + 1 <= share,
                bars > 0,
        ;
    }
    assert(band_len(frames, bars) == len);
    assert(0 <= bar * len) by (nonlinear_arith)
        requires
            0 <= bar,
            len >= 1,
    ;
    assert((bar + 1) * len == bar * len + len) by (nonlinear_arith);
}

/// The picture has as many rows as are asked for and in each a cell for every column. From the bottom
/// up a column has as many full blocks as it fills whole rows, then a block for the eighths that it
/// fills of the next, one at the least, and blanks above that. A single empty row is all there is
/// where there are no columns or no rows.
pub proof fn the_picture_shows_the_fills(
    fills: Seq<ColumnFill>,
    height: int,
    above: int,
    x: int,
)
    requires
        height >= 0,
    ensures
        height == 0 || fills.len() == 0 ==> cell_rows(fills, height) == seq![Seq::<Cell>::empty()],
        height > 0 && fills.len() > 0 ==> cell_rows(fills, height).len() == height,
        1 <= above <= height && 0 <= x < fills.len() ==> {
            let row = cell_rows(fills, height)[height - above];
            let shown = row[x].glyph;
            &&& row.len() == fills.len()
            &&& above <= fills[x].whole_rows ==> shown == '█'
            &&& above > fills[x].whole_rows + 1 ==> shown == ' '
            &&& above == fills[x].whole_rows + 1 ==> {
                &&& fills[x].eighths <= 1 ==> shown == '▁'
                &&& fills[x].eighths == 2 ==> shown == '▂'
                &&& fills[x].eighths == 3 ==> shown == '▃'
                &&& fills[x].eighths == 4 ==> shown == '▄'
                &&& fills[x].eighths == 5 ==> shown == '▅'
                &&& fills[x].eighths == 6 ==> shown == '▆'
                &&& fills[x].eighths == 7 ==> shown == '▇'
                &&& fills[x].eighths >= 8 ==> shown == '█'
            }
        },
{
}

/// The upper third of the rows is drawn in the secondary colour, the middle one in the accent colour
/// and the lower one in the foreground, whatever the columns are.
pub proof fn thirds_have_their_colors(fills: Seq<ColumnFill>, height: int, row: int, x: int)
    requires
        0 <= row < height,
        0 <= x < fills.len(),
    ensures
        cell_rows(fills, height)[row][x].tone == Tone::Secondary <==> 3 * (row + 1) <= height,
        cell_rows(fills, height)[row][x].tone == Tone::Accent <==> 3 * (row + 1) > height && 3 * (row
            + 1) <= 2 * height,
        cell_rows(fills, height)[row][x].tone == Tone::Foreground <==> 3 * (row + 1) > 2 * height,
{
}

/// The rows as mathematical values have every cell in its place.
pub proof fn rows_are_seen_as_they_are(rows: Seq<Vec<Cell>>, row: int)
    requires
        0 <= row < rows.len(),
    ensures
        cells_of(rows).len() == rows.len(),
        cells_of(rows)[row] == rows[row]@,
{
}

} // verus!
