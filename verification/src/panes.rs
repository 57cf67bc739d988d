//! How the screen is divided.

use vstd::prelude::*;

verus! {

/// A rectangle of character cells.
#[derive(Clone, Copy, Debug, PartialEq, Eq, Structural)]
pub struct Area {
    pub x: u16,
    pub y: u16,
    pub width: u16,
    pub height: u16,
}

/// Which way an area is divided.
#[derive(Clone, Copy, Debug, PartialEq, Eq, Structural)]
pub enum Axis {
    /// Into panes beside each other.
    Horizontal,
    /// Into panes above each other.
    Vertical,
}

/// What is wanted of a pane's size.
#[derive(Clone, Copy, Debug, PartialEq, Eq, Structural)]
pub enum PaneSize {
    /// Just this much.
    Length(u16),
    /// This much at least.
    AtLeast(u16),
}

/// A pane reaches across the area that is divided: over its full height where panes lie beside
/// each other, over its full width where they lie above each other.
pub open spec fn reaches_across(pane: Area, area: Area, axis: Axis) -> bool {
    match axis {
        Axis::Horizontal => pane.y == area.y && pane.height == area.height,
        Axis::Vertical => pane.x == area.x && pane.width == area.width,
    }
}

/// Where an area begins along an axis.
pub open spec fn begins(area: Area, axis: Axis) -> int {
    match axis {
        Axis::Horizontal => area.x as int,
        Axis::Vertical => area.y as int,
    }
}

/// How long an area is along an axis.
pub open spec fn extent(area: Area, axis: Axis) -> int {
    match axis {
        Axis::Horizontal => area.width as int,
        Axis::Vertical => area.height as int,
    }
}

/// The size that is wanted, at the least.
pub open spec fn wanted(size: PaneSize) -> int {
    match size {
        PaneSize::Length(n) => n as int,
        PaneSize::AtLeast(n) => n as int,
    }
}

/// What the first `count` sizes add up to.
pub open spec fn total(sizes: Seq<PaneSize>, count: int) -> int
    decreases count,
{
    if count <= 0 {
        0
    } else {
        total(sizes, count - 1) + wanted(sizes[count - 1])
    }
}

/// The pane at `at`, and no other, takes the room that is left over.
pub open spec fn fills(sizes: Seq<PaneSize>, at: int) -> bool {
    0 <= at < sizes.len() && forall|i: int|
        0 <= i < sizes.len() ==> ((#[trigger] sizes[i]) is AtLeast <==> i == at)
}

/// How long the pane that takes the room left over is: what the others leave it where all sizes
/// can be had, else just its least size, or the whole where that is less.
pub open spec fn filler_extent(sizes: Seq<PaneSize>, whole: int, at: int) -> int {
    let all = total(sizes, sizes.len() as int);
    let least = wanted(sizes[at]);
    if all <= whole {
        least + (whole - all)
    } else if least <= whole {
        least
    } else {
        whole
    }
}

/// Where an area ends along an axis: no position lies beyond the largest 16-bit number.
pub open spec fn ends(area: Area, axis: Axis) -> int {
    let end = begins(area, axis) + extent(area, axis);
    if end <= u16::MAX {
        end
    } else {
        u16::MAX as int
    }
}

/// How much of an area there is to divide.
pub open spec fn room(area: Area, axis: Axis) -> int {
    ends(area, axis) - begins(area, axis)
}

/// What the first `count` shares add up to.
pub open spec fn sum_of(shares: Seq<int>, count: int) -> int
    decreases count,
{
    if count <= 0 {
        0
    } else {
        sum_of(shares, count - 1) + shares[count - 1]
    }
}

/// The shares of panes in a length, in sixths of a cell. The pane at `at` has what it is owed,
/// and no other has more than is wanted of it.
pub open spec fn are_shares(shares: Seq<int>, sizes: Seq<PaneSize>, whole: int, at: int) -> bool {
    &&& shares.len() == sizes.len()
    &&& sum_of(shares, shares.len() as int) == 6 * whole
    &&& shares[at] == 6 * filler_extent(sizes, whole, at)
    &&& forall|i: int|
        0 <= i < shares.len() && i != at ==> 0 <= #[trigger] shares[i] <= 6 * wanted(sizes[i])
}

/// How far two numbers are apart.
pub open spec fn distance(a: int, b: int) -> int {
    if a < b {
        b - a
    } else {
        a - b
    }
}

/// How far neighbours are apart, over the first `count` shares.
pub open spec fn unevenness(shares: Seq<int>, count: int) -> int
    decreases count,
{
    if count <= 1 {
        0
    } else {
        unevenness(shares, count - 1) + distance(shares[count - 2], shares[count - 1])
    }
}

/// Shares whose neighbours are as little apart as can be.
pub open spec fn are_most_even(
    shares: Seq<int>,
    sizes: Seq<PaneSize>,
    whole: int,
    at: int,
) -> bool {
    &&& are_shares(shares, sizes, whole, at)
    &&& forall|other: Seq<int>| #[trigger]
        are_shares(other, sizes, whole, at) ==> unevenness(shares, shares.len() as int)
            <= unevenness(other, other.len() as int)
}

/// Where the first `count` shares of an area end, to the nearest cell, a half being rounded up.
pub open spec fn border(area: Area, axis: Axis, shares: Seq<int>, count: int) -> int {
    begins(area, axis) + (sum_of(shares, count) + 3) / 6
}

/// Every pane reaches from one border to the next.
pub open spec fn are_cut(panes: Seq<Area>, area: Area, axis: Axis, shares: Seq<int>) -> bool {
    forall|i: int|
        0 <= i < panes.len() ==> begins(#[trigger] panes[i], axis) == border(area, axis, shares, i)
            && begins(panes[i], axis) + extent(panes[i], axis) == border(area, axis, shares, i + 1)
}

/// Panes that are cut from an area by most even shares.
pub open spec fn are_shared_out(
    panes: Seq<Area>,
    area: Area,
    axis: Axis,
    sizes: Seq<PaneSize>,
    at: int,
) -> bool {
    exists|shares: Seq<int>| #[trigger]
        are_most_even(shares, sizes, room(area, axis), at) && are_cut(panes, area, axis, shares)
}

/// Divides an area by `ratatui::layout::Layout::split`, with the default flex and no margin or
/// spacing. There is a pane for every size, and each reaches across the area. Where just one of
/// them is a least size, the panes cover the area in order and without a gap. The one with the
/// least size is as long as [`filler_extent`] says, and none with a fixed length is longer than
/// that. Where the lengths cannot all be had, they share what is left so that neighbours are as
/// little apart as can be, and the borders are rounded to cells.
///
/// For the layout's solver weighs a gap highest, then a least size, then a length, then growing
/// to the whole, and last and least the difference of neighbours, each far above the next for
/// this few panes. So every best solution has these properties. It puts each share at a length
/// that is wanted, at nothing, or on a par with its neighbours, of which there are three at most
/// beside the one with the least size: so sixths of a cell will do. The layout rounds to
/// hundredths of a cell before it rounds to cells, which makes no difference to sixths. It counts
/// least sizes in signed 16-bit numbers.
#[verifier::external_body]
fn divide(area: Area, axis: Axis, sizes: &Vec<PaneSize>) -> (panes: Vec<Area>)
    requires
        sizes@.len() <= 4,
    ensures
        panes@.len() == sizes@.len(),
        forall|i: int| 0 <= i < panes@.len() ==> reaches_across(#[trigger] panes@[i], area, axis),
        forall|at: int| #[trigger]
            fills(sizes@, at) && wanted(sizes@[at]) <= i16::MAX ==> are_shared_out(
                panes@,
                area,
                axis,
                sizes@,
                at,
            ),
{
    let direction = match axis {
        Axis::Horizontal => ratatui::layout::Direction::Horizontal,
        Axis::Vertical => ratatui::layout::Direction::Vertical,
    };
    let constraints = sizes.iter().map(|size| match size {
        PaneSize::Length(n) => ratatui::layout::Constraint::Length(*n),
        PaneSize::AtLeast(n) => ratatui::layout::Constraint::Min(*n),
    });
    let whole = ratatui::layout::Rect { x: area.x, y: area.y, width: area.width, height: area.height };
    let rects = ratatui::layout::Layout::default().direction(direction).constraints(constraints).split(whole);
    rects.iter().map(|r| Area { x: r.x, y: r.y, width: r.width, height: r.height }).collect()
}

/// The panes of the screen.
#[derive(Clone, Copy, Debug, PartialEq, Eq, Structural)]
pub struct Panes {
    pub channels: Area,
    pub now_playing: Area,
    pub visualizer: Area,
    pub buffer: Area,
    pub help: Area,
}

/// The sizes of the two sides of the screen: the channels, and everything else.
pub open spec fn side_sizes() -> Seq<PaneSize> {
    seq![PaneSize::Length(30), PaneSize::AtLeast(56)]
}

/// The sizes of the panes on the right: what is playing, the visualizer, the window, the controls.
pub open spec fn right_sizes() -> Seq<PaneSize> {
    seq![
        PaneSize::Length(8),
        PaneSize::AtLeast(14),
        PaneSize::Length(3),
        PaneSize::Length(6),
    ]
}

/// The panes by their place in the two divisions.
pub open spec fn placed(sides: Seq<Area>, right: Seq<Area>) -> Panes {
    Panes {
        channels: sides[0],
        now_playing: right[0],
        visualizer: right[1],
        buffer: right[2],
        help: right[3],
    }
}

/// The sizes of the two sides of the screen.
fn side_pane_sizes() -> (sizes: Vec<PaneSize>)
    ensures
        sizes@ == side_sizes(),
{
    let sizes: Vec<PaneSize> = vec![PaneSize::Length(30), PaneSize::AtLeast(56)];
    assert(sizes@ =~= side_sizes());
    sizes
}

/// The sizes of the panes on the right.
fn right_pane_sizes() -> (sizes: Vec<PaneSize>)
    ensures
        sizes@ == right_sizes(),
{
    let sizes: Vec<PaneSize> = vec![
        PaneSize::Length(8),
        PaneSize::AtLeast(14),
        PaneSize::Length(3),
        PaneSize::Length(6),
    ];
    assert(sizes@ =~= right_sizes());
    sizes
}

/// Takes the panes from the two divisions.
pub fn place(sides: &[Area], right: &[Area]) -> (panes: Panes)
    requires
        sides@.len() == side_sizes().len(),
        right@.len() == right_sizes().len(),
    ensures
        panes == placed(sides@, right@),
{
    Panes {
        channels: sides[0],
        now_playing: right[0],
        visualizer: right[1],
        buffer: right[2],
        help: right[3],
    }
}

/// The smaller of two numbers.
pub open spec fn lesser(a: int, b: int) -> int {
    if a < b {
        a
    } else {
        b
    }
}

/// What is left of a length behind another; nothing, if that is longer.
pub open spec fn rest(whole: int, taken: int) -> int {
    if whole < taken {
        0
    } else {
        whole - taken
    }
}

/// How wide the right side is on a screen so wide: what the channels leave it, but 56 at least,
/// as far as the screen reaches.
pub open spec fn right_width(width: int) -> int {
    if width >= 86 {
        width - 30
    } else {
        lesser(56, width)
    }
}

/// How high the visualizer is on a screen so high: what the other panes leave it, but 14 at
/// least, as far as the screen reaches.
pub open spec fn visualizer_height(height: int) -> int {
    if height >= 31 {
        height - 17
    } else {
        lesser(14, height)
    }
}

/// How high the pane on what is playing is: it has the first 8 rows besides the visualizer's 14.
pub open spec fn now_playing_height(height: int) -> int {
    lesser(8, rest(height, 14))
}

/// How high the pane on the window is: every second row behind these, up to 3.
pub open spec fn buffer_height(height: int) -> int {
    lesser(3, (rest(height, 22) + 1) / 2)
}

/// How high the pane with the controls is: the other rows behind these, up to 6.
pub open spec fn help_height(height: int) -> int {
    lesser(6, rest(height, 22) - buffer_height(height))
}

/// The panes of a screen: the channels on the left over the full height, and the other panes
/// above each other on the right, all equally wide.
pub open spec fn screen_panes(screen: Area) -> Panes {
    let width = room(screen, Axis::Horizontal);
    let height = room(screen, Axis::Vertical);
    let right = right_width(width);
    let x = screen.x + (width - right);
    let visualizer_y = screen.y + now_playing_height(height);
    let buffer_y = visualizer_y + visualizer_height(height);
    let help_y = buffer_y + buffer_height(height);
    Panes {
        channels: Area {
            x: screen.x,
            y: screen.y,
            width: (width - right) as u16,
            height: screen.height,
        },
        now_playing: Area {
            x: x as u16,
            y: screen.y,
            width: right as u16,
            height: now_playing_height(height) as u16,
        },
        visualizer: Area {
            x: x as u16,
            y: visualizer_y as u16,
            width: right as u16,
            height: visualizer_height(height) as u16,
        },
        buffer: Area {
            x: x as u16,
            y: buffer_y as u16,
            width: right as u16,
            height: buffer_height(height) as u16,
        },
        help: Area {
            x: x as u16,
            y: help_y as u16,
            width: right as u16,
            height: help_height(height) as u16,
        },
    }
}

/// The most even shares of the two sides are no others than these.
proof fn lemma_side_shares(shares: Seq<int>, width: int)
    requires
        width >= 0,
        are_shares(shares, side_sizes(), width, 1),
    ensures
        sum_of(shares, 0) == 0,
        sum_of(shares, 1) == 6 * (width - right_width(width)),
        sum_of(shares, 2) == 6 * width,
{
    reveal_with_fuel(total, 3);
    reveal_with_fuel(sum_of, 3);
}

/// The shares of the panes on the right in sixths of a row.
spec fn right_shares(height: int) -> Seq<int> {
    let first = 6 * now_playing_height(height);
    let spare = 6 * rest(height, 22);
    let third = lesser(18, spare / 2);
    seq![first, 6 * visualizer_height(height), third, lesser(36, spare - third)]
}

/// The most even shares of the panes on the right are no others than these.
proof fn lemma_right_shares(shares: Seq<int>, height: int)
    requires
        height >= 0,
        are_most_even(shares, right_sizes(), height, 1),
    ensures
        sum_of(shares, 0) == 0,
        sum_of(shares, 1) == right_shares(height)[0],
        sum_of(shares, 2) == sum_of(shares, 1) + right_shares(height)[1],
        sum_of(shares, 3) == sum_of(shares, 2) + right_shares(height)[2],
        sum_of(shares, 4) == 6 * height,
{
    let best = right_shares(height);
    reveal_with_fuel(total, 5);
    reveal_with_fuel(sum_of, 5);
    reveal_with_fuel(unevenness, 5);
    assert(0 <= shares[0] <= 48);
    assert(0 <= shares[2] <= 18);
    assert(0 <= shares[3] <= 36);
    assert(are_shares(best, right_sizes(), height, 1));
    assert(unevenness(shares, 4) <= unevenness(best, 4));
}

/// Divides the screen: the channels on the left over the full height, and the other panes above
/// each other on the right, all equally wide.
pub fn divide_screen(screen: Area) -> (panes: Panes)
    ensures
        panes == screen_panes(screen),
{
    let sides: Vec<Area> = divide(screen, Axis::Horizontal, &side_pane_sizes());
    let right: Vec<Area> = divide(sides[1], Axis::Vertical, &right_pane_sizes());
    let panes: Panes = place(sides.as_slice(), right.as_slice());
    proof {
        let across = Axis::Horizontal;
        let down = Axis::Vertical;
        assert(reaches_across(sides@[0], screen, across));
        assert(reaches_across(sides@[1], screen, across));
        assert(reaches_across(right@[0], sides@[1], down));
        assert(reaches_across(right@[1], sides@[1], down));
        assert(reaches_across(right@[2], sides@[1], down));
        assert(reaches_across(right@[3], sides@[1], down));
        assert(fills(side_sizes(), 1));
        assert(fills(right_sizes(), 1));
        let width = room(screen, across);
        let height = room(sides@[1], down);
        let beside = choose|shares: Seq<int>| #[trigger]
            are_most_even(shares, side_sizes(), width, 1) && are_cut(
                sides@,
                screen,
                across,
                shares,
            );
        let above = choose|shares: Seq<int>| #[trigger]
            are_most_even(shares, right_sizes(), height, 1) && are_cut(
                right@,
                sides@[1],
                down,
                shares,
            );
        lemma_side_shares(beside, width);
        lemma_right_shares(above, height);
    }
    panes
}

/// The panes cover the screen: the channels and the right side lie beside each other over the
/// full width, and the panes on the right above each other over the full height.
pub proof fn panes_cover_the_screen(screen: Area)
    requires
        screen.x + screen.width <= u16::MAX,
        screen.y + screen.height <= u16::MAX,
    ensures
        ({
            let panes = screen_panes(screen);
            &&& panes.channels.x == screen.x
            &&& panes.now_playing.x == panes.channels.x + panes.channels.width
            &&& panes.now_playing.x + panes.now_playing.width == screen.x + screen.width
            &&& panes.channels.y == screen.y
            &&& panes.channels.height == screen.height
            &&& panes.now_playing.y == screen.y
            &&& panes.visualizer.y == panes.now_playing.y + panes.now_playing.height
            &&& panes.buffer.y == panes.visualizer.y + panes.visualizer.height
            &&& panes.help.y == panes.buffer.y + panes.buffer.height
            &&& panes.help.y + panes.help.height == screen.y + screen.height
        }),
{
}

/// On a screen that is large enough the channels are 30 wide, what is playing has 8 rows, the window 3
/// and the controls 6, and the visualizer and the right side take the rest. On a smaller one the right
/// side keeps 56 columns and the visualizer 14 rows for as long as there are so many.
pub proof fn panes_have_their_sizes(screen: Area)
    requires
        screen.x + screen.width <= u16::MAX,
        screen.y + screen.height <= u16::MAX,
    ensures
        ({
            let panes = screen_panes(screen);
            &&& screen.width >= 86 ==> panes.channels.width == 30
            &&& 56 <= screen.width <= 86 ==> panes.visualizer.width == 56
            &&& screen.width <= 56 ==> panes.channels.width == 0
            &&& panes.now_playing.width == panes.visualizer.width
            &&& panes.buffer.width == panes.visualizer.width
            &&& panes.help.width == panes.visualizer.width
            &&& panes.visualizer.x == panes.now_playing.x
            &&& panes.buffer.x == panes.now_playing.x
            &&& panes.help.x == panes.now_playing.x
            &&& screen.height >= 31 ==> panes.now_playing.height == 8 && panes.buffer.height == 3
                && panes.help.height == 6
            &&& 14 <= screen.height <= 31 ==> panes.visualizer.height == 14
            &&& screen.height <= 14 ==> panes.visualizer.height == screen.height
            &&& 22 <= screen.height ==> panes.now_playing.height == 8
            &&& 14 <= screen.height <= 22 ==> panes.now_playing.height == screen.height - 14
            &&& panes.buffer.height <= 3
            &&& screen.height <= 28 ==> panes.help.height <= panes.buffer.height
                <= panes.help.height + 1
            &&& 28 <= screen.height ==> panes.buffer.height == 3
        }),
{
}

} // verus!
