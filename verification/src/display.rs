//! What the screen shows, as far as it is computed rather than drawn: the
//! popup geometry, the texts of the server list, status bar and delete
//! confirmation, and the grouping of a terminal row into styled runs.
use vstd::prelude::*;
use ratatui::layout::{Constraint, Direction, Layout, Rect};
use crate::app::App;
use crate::server::{Server, ServerView, connection_text};
use crate::text::{decimal, decimal_spec};

verus! {

/// A rectangle of terminal cells.
#[derive(Debug, Clone, Copy, PartialEq, Eq, Structural)]
pub struct Area {
    pub x: u16,
    pub y: u16,
    pub width: u16,
    pub height: u16,
}

/// The direction in which a layout splits an area.
#[derive(Debug, Clone, Copy, PartialEq, Eq, Structural)]
pub enum Axis {
    Vertical,
    Horizontal,
}

/// A size constraint of one part of a layout.
#[derive(Debug, Clone, Copy, PartialEq, Eq, Structural)]
pub enum Extent {
    /// Exactly this many cells.
    Length(u16),
    /// At least this many cells.
    Min(u16),
    /// This percentage of the area.
    Percentage(u16),
}

/// `x + m`, or the largest `u16` when that does not fit.
pub open spec fn saturating_add(x: u16, m: u16) -> u16 {
    if x + m > u16::MAX {
        u16::MAX
    } else {
        (x + m) as u16
    }
}

/// The area inside a margin of `m` cells on every side, as ratatui's
/// `Rect::inner` gives it: all zero when the doubled margin does not fit.
pub open spec fn inner_area(a: Area, m: u16) -> Area {
    let d: int = if 2 * m > u16::MAX {
        u16::MAX as int
    } else {
        2 * m
    };
    if a.width < d || a.height < d {
        Area { x: 0, y: 0, width: 0, height: 0 }
    } else {
        Area {
            x: saturating_add(a.x, m),
            y: saturating_add(a.y, m),
            width: (a.width - d) as u16,
            height: (a.height - d) as u16,
        }
    }
}

/// Where `a` starts along `axis` (its `y` in a vertical split, its `x` in a
/// horizontal one).
pub open spec fn start_along(axis: Axis, a: Area) -> int {
    match axis {
        Axis::Vertical => a.y as int,
        Axis::Horizontal => a.x as int,
    }
}

/// Where `a` ends along `axis`: its start plus its extent.
pub open spec fn end_along(axis: Axis, a: Area) -> int {
    match axis {
        Axis::Vertical => a.y + a.height,
        Axis::Horizontal => a.x + a.width,
    }
}

/// Where `a` ends along `axis` as ratatui computes it (`Rect::bottom` or
/// `Rect::right`, which saturate).
pub open spec fn limit_along(axis: Axis, a: Area) -> int {
    match axis {
        Axis::Vertical => saturating_add(a.y, a.height) as int,
        Axis::Horizontal => saturating_add(a.x, a.width) as int,
    }
}

/// Whether `p` spans `inner` across `axis`: the same `x` and `width` in a
/// vertical split, the same `y` and `height` in a horizontal one.
pub open spec fn spans_across(axis: Axis, p: Area, inner: Area) -> bool {
    match axis {
        Axis::Vertical => p.x == inner.x && p.width == inner.width,
        Axis::Horizontal => p.y == inner.y && p.height == inner.height,
    }
}

/// `a / b` rounded to the nearest integer, halves up.
pub open spec fn round_div(a: int, b: int) -> int {
    (2 * a + b) / (2 * b)
}

/// The percentage of a `Percentage` constraint; 0 for the others.
pub open spec fn percent_of(e: Extent) -> int {
    match e {
        Extent::Percentage(p) => p as int,
        _ => 0,
    }
}

/// Whether every constraint is a `Percentage`.
pub open spec fn all_percentages(cs: Seq<Extent>) -> bool {
    forall|i: int| 0 <= i < cs.len() ==> #[trigger] cs[i] is Percentage
}

/// The sum of the percentages of the first `i` constraints.
pub open spec fn percent_before(cs: Seq<Extent>, i: int) -> int
    decreases i,
{
    if i <= 0 {
        0
    } else {
        percent_before(cs, i - 1) + percent_of(cs[i - 1])
    }
}

/// Whether every constraint is a `Length`, except exactly one `Min`.
pub open spec fn lengths_and_one_min(cs: Seq<Extent>) -> bool {
    &&& forall|i: int| 0 <= i < cs.len() ==> #[trigger] cs[i] is Length || cs[i] is Min
    &&& exists|m: int|
        0 <= m < cs.len() && #[trigger] cs[m] is Min && forall|j: int|
            0 <= j < cs.len() && j != m ==> #[trigger] cs[j] is Length
}

/// The cells the first `i` constraints ask for at least: a `Length`'s
/// length, a `Min`'s minimum.
pub open spec fn floor_total(cs: Seq<Extent>, i: int) -> int
    decreases i,
{
    if i <= 0 {
        0
    } else {
        floor_total(cs, i - 1) + match cs[i - 1] {
            Extent::Length(n) => n as int,
            Extent::Min(n) => n as int,
            Extent::Percentage(_) => 0,
        }
    }
}

/// The cells the `Length` constraints among the first `i` ask for.
pub open spec fn length_total(cs: Seq<Extent>, i: int) -> int
    decreases i,
{
    if i <= 0 {
        0
    } else {
        length_total(cs, i - 1) + match cs[i - 1] {
            Extent::Length(n) => n as int,
            _ => 0,
        }
    }
}

/// The size of part `i` when the `Length` parts get their lengths and the
/// `Min` part gets the rest of `size` cells.
pub open spec fn fitted_size(cs: Seq<Extent>, size: int, i: int) -> int {
    match cs[i] {
        Extent::Length(n) => n as int,
        Extent::Min(_) => size - length_total(cs, cs.len() as int),
        Extent::Percentage(_) => 0,
    }
}

/// Where part `i` starts, counted from the start of the area, when the
/// parts are sized by [`fitted_size`].
pub open spec fn fitted_offset(cs: Seq<Extent>, size: int, i: int) -> int
    decreases i,
{
    if i <= 0 {
        0
    } else {
        fitted_offset(cs, size, i - 1) + fitted_size(cs, size, i - 1)
    }
}

/// Calls ratatui's `Layout::split` along `axis` with a margin of `margin`
/// cells on every side (and the default `Flex::Start`). The contract claims
/// what the source shows of every outcome:
/// - one part per constraint, each spanning the inner area across the axis;
/// - along the axis, every part lies within the inner area, and each part
///   ends where the next one starts or before (the solver's required
///   constraints keep its variables within the area and in ascending order,
///   and the rounding that turns them into cells keeps that order);
/// - when all constraints are percentages summing to at most 100, part `i`
///   runs from the rounded `sum of earlier percentages` percent of the area
///   to the rounded `sum including its own` percent (the percentage
///   constraints are strong and can all be met, every weaker wish only
///   moves the free space after the last part, and a cell count is the
///   solver's value rounded half up);
/// - when all constraints are lengths but one minimum and they fit, every
///   length part is exactly that long, the minimum part takes the rest, and
///   the parts follow each other from the start of the area.
/// In other cases, where the constraints leave a choice, the solver's pick
/// follows a hash map's per-process order and is not claimed.
#[verifier::external_body]
fn split_area(axis: Axis, margin: u16, constraints: &Vec<Extent>, area: Area) -> (r: Vec<Area>)
    ensures
        r@.len() == constraints@.len(),
        forall|i: int|
            0 <= i < r@.len() ==> spans_across(axis, #[trigger] r@[i], inner_area(area, margin)),
        forall|i: int|
            0 <= i < r@.len() ==> start_along(axis, inner_area(area, margin)) <= start_along(
                axis,
                #[trigger] r@[i],
            ) && end_along(axis, r@[i]) <= limit_along(axis, inner_area(area, margin)),
        forall|i: int|
            0 <= i < r@.len() - 1 ==> end_along(axis, #[trigger] r@[i]) <= start_along(
                axis,
                r@[i + 1],
            ),
        all_percentages(constraints@) && percent_before(constraints@, constraints@.len() as int)
            <= 100 ==> forall|i: int|
            0 <= i < r@.len() ==> {
                let s = start_along(axis, inner_area(area, margin));
                let size = limit_along(axis, inner_area(area, margin)) - s;
                &&& start_along(axis, #[trigger] r@[i]) == s + round_div(
                    size * percent_before(constraints@, i),
                    100,
                )
                &&& end_along(axis, r@[i]) == s + round_div(
                    size * percent_before(constraints@, i + 1),
                    100,
                )
            },
        lengths_and_one_min(constraints@) && floor_total(constraints@, constraints@.len() as int)
            <= limit_along(axis, inner_area(area, margin)) - start_along(
            axis,
            inner_area(area, margin),
        ) ==> forall|i: int|
            0 <= i < r@.len() ==> {
                let s = start_along(axis, inner_area(area, margin));
                let size = limit_along(axis, inner_area(area, margin)) - s;
                &&& start_along(axis, #[trigger] r@[i]) == s + fitted_offset(constraints@, size, i)
                &&& end_along(axis, r@[i]) == s + fitted_offset(constraints@, size, i + 1)
            },
{
    let direction = match axis {
        Axis::Vertical => Direction::Vertical,
        Axis::Horizontal => Direction::Horizontal,
    };
    let cs = constraints.iter().map(|c| match *c {
        Extent::Length(n) => Constraint::Length(n),
        Extent::Min(n) => Constraint::Min(n),
        Extent::Percentage(n) => Constraint::Percentage(n),
    });
    let rect = Rect { x: area.x, y: area.y, width: area.width, height: area.height };
    let parts = Layout::default().direction(direction).margin(margin).constraints(cs).split(rect);
    parts.iter().map(|p| Area { x: p.x, y: p.y, width: p.width, height: p.height }).collect()
}

/// The constraints that centre a part of `percent` percent: the part
/// between two equal parts of `(100 - percent) / 2` percent.
pub open spec fn centering(percent: u16) -> Seq<Extent> {
    let side = ((100 - percent) / 2) as u16;
    seq![Extent::Percentage(side), Extent::Percentage(percent), Extent::Percentage(side)]
}

/// The constraints that centre a part of `percent` percent.
pub fn centering_constraints(percent: u16) -> (r: Vec<Extent>)
    requires
        percent <= 100,
    ensures
        r@ == centering(percent),
{
    let side = (100 - percent) / 2;
    let r = vec![Extent::Percentage(side), Extent::Percentage(percent), Extent::Percentage(side)];
    assert(r@ =~= centering(percent));
    r
}

/// The middle one of three parts of a split.
pub fn middle_part(parts: &Vec<Area>) -> (m: Area)
    requires
        parts@.len() == 3,
    ensures
        m == parts@[1],
{
    parts[1]
}

/// Where the middle part of a split by [`centering`] of `percent` starts and
/// ends, counted from the start of an extent of `size` cells.
pub open spec fn centered_span(size: int, percent: int) -> (int, int) {
    let side = (100 - percent) / 2;
    (round_div(size * side, 100), round_div(size * (side + percent), 100))
}

/// The extent along the axis of `a` that a split uses: up to ratatui's
/// saturating right or bottom edge.
pub open spec fn extent_along(axis: Axis, a: Area) -> int {
    limit_along(axis, a) - start_along(axis, a)
}

/// Returns a centered rect of `percent_x` by `percent_y` percent of `r`: the
/// middle column, split by [`centering_constraints`] of `percent_x`, of the
/// middle row, split by those of `percent_y`.
pub fn centered_rect(percent_x: u16, percent_y: u16, r: Area) -> (c: Area)
    requires
        percent_x <= 100,
        percent_y <= 100,
    ensures
        c.x == r.x + centered_span(extent_along(Axis::Horizontal, r), percent_x as int).0,
        c.x + c.width == r.x + centered_span(extent_along(Axis::Horizontal, r), percent_x as int).1,
        c.y == r.y + centered_span(extent_along(Axis::Vertical, r), percent_y as int).0,
        c.y + c.height == r.y + centered_span(extent_along(Axis::Vertical, r), percent_y as int).1,
        r.x <= c.x && c.x + c.width <= r.x + r.width,
        r.y <= c.y && c.y + c.height <= r.y + r.height,
{
    assert(inner_area(r, 0) == r);
    let ys = centering_constraints(percent_y);
    proof {
        lemma_centering_percentages(percent_y);
    }
    let rows = split_area(Axis::Vertical, 0, &ys, r);
    let row = middle_part(&rows);
    assert(spans_across(Axis::Vertical, rows@[1], r));
    assert(inner_area(row, 0) == row);
    let xs = centering_constraints(percent_x);
    proof {
        lemma_centering_percentages(percent_x);
    }
    let cols = split_area(Axis::Horizontal, 0, &xs, row);
    assert(spans_across(Axis::Horizontal, cols@[1], row));
    assert(start_along(Axis::Vertical, rows@[1]) >= start_along(Axis::Vertical, r));
    assert(end_along(Axis::Vertical, rows@[1]) <= limit_along(Axis::Vertical, r));
    assert(start_along(Axis::Horizontal, cols@[1]) >= start_along(Axis::Horizontal, row));
    assert(end_along(Axis::Horizontal, cols@[1]) <= limit_along(Axis::Horizontal, row));
    middle_part(&cols)
}

/// The centering constraints are percentages summing to at most 100, and
/// the middle part's span is the one [`centered_span`] gives.
proof fn lemma_centering_percentages(percent: u16)
    requires
        percent <= 100,
    ensures
        all_percentages(centering(percent)),
        percent_before(centering(percent), 3) <= 100,
        percent_before(centering(percent), 1) == (100 - percent) / 2,
        percent_before(centering(percent), 2) == (100 - percent) / 2 + percent,
{
    let cs = centering(percent);
    reveal_with_fuel(percent_before, 4);
    assert(percent_of(cs[0]) == (100 - percent) / 2);
    assert(percent_of(cs[1]) == percent);
    assert(percent_of(cs[2]) == (100 - percent) / 2);
}

/// The rows of the main screen: a header of 3 lines, the server list of at
/// least 5 lines, and a status bar of 3 lines.
pub open spec fn screen_constraints() -> Seq<Extent> {
    seq![Extent::Length(3), Extent::Min(5), Extent::Length(3)]
}

/// The screen constraints are lengths around one minimum, asking for 11
/// lines, and when they fit the parts start at 0, 3 and `size - 3`.
proof fn lemma_screen_fitted(size: int)
    ensures
        lengths_and_one_min(screen_constraints()),
        floor_total(screen_constraints(), 3) == 11,
        fitted_offset(screen_constraints(), size, 0) == 0,
        fitted_offset(screen_constraints(), size, 1) == 3,
        fitted_offset(screen_constraints(), size, 2) == size - 3,
        fitted_offset(screen_constraints(), size, 3) == size,
{
    let cs = screen_constraints();
    assert(cs[1] is Min);
    assert(forall|j: int| 0 <= j < 3 && j != 1 ==> #[trigger] cs[j] is Length);
    reveal_with_fuel(floor_total, 4);
    reveal_with_fuel(length_total, 4);
    reveal_with_fuel(fitted_offset, 4);
    assert(length_total(cs, 3) == 6);
}

/// The header, server list and status bar areas of the main screen, split
/// by [`screen_constraints`], top to bottom: each spans the full width of
/// `area`, lies within it, and ends where the next begins or above. When
/// the area has room for all 11 lines the constraints ask for, the header
/// and status bar are 3 lines each and the list takes the rest.
pub fn screen_areas(area: Area) -> (r: (Area, Area, Area))
    ensures
        r.0.x == area.x && r.0.width == area.width,
        r.1.x == area.x && r.1.width == area.width,
        r.2.x == area.x && r.2.width == area.width,
        area.y <= r.0.y,
        r.0.y + r.0.height <= r.1.y,
        r.1.y + r.1.height <= r.2.y,
        r.2.y + r.2.height <= area.y + area.height,
        extent_along(Axis::Vertical, area) >= 11 ==> {
            let size = extent_along(Axis::Vertical, area);
            &&& r.0.y == area.y && r.0.height == 3
            &&& r.1.y == area.y + 3 && r.1.height == size - 6
            &&& r.2.y == area.y + size - 3 && r.2.height == 3
        },
{
    let cs = vec![Extent::Length(3), Extent::Min(5), Extent::Length(3)];
    assert(cs@ =~= screen_constraints());
    assert(inner_area(area, 0) == area);
    proof {
        lemma_screen_fitted(extent_along(Axis::Vertical, area));
    }
    let parts = split_area(Axis::Vertical, 0, &cs, area);
    assert(spans_across(Axis::Vertical, parts@[0], area));
    assert(spans_across(Axis::Vertical, parts@[1], area));
    assert(spans_across(Axis::Vertical, parts@[2], area));
    assert(end_along(Axis::Vertical, parts@[0]) <= start_along(Axis::Vertical, parts@[1]));
    assert(end_along(Axis::Vertical, parts@[1]) <= start_along(Axis::Vertical, parts@[2]));
    assert(end_along(Axis::Vertical, parts@[2]) <= limit_along(Axis::Vertical, area));
    assert(start_along(Axis::Vertical, parts@[0]) >= start_along(Axis::Vertical, area));
    (parts[0], parts[1], parts[2])
}

/// The rows inside the form popup, within a margin of one cell: for each
/// field a label line and an input box of 3 lines, then 2 lines of help and
/// the rest.
pub open spec fn form_constraints() -> Seq<Extent> {
    seq![
        Extent::Length(1), Extent::Length(3),
        Extent::Length(1), Extent::Length(3),
        Extent::Length(1), Extent::Length(3),
        Extent::Length(1), Extent::Length(3),
        Extent::Length(1), Extent::Length(3),
        Extent::Length(2), Extent::Min(0),
    ]
}

/// The constraints of the rows inside the form popup.
pub fn form_constraint_list() -> (r: Vec<Extent>)
    ensures
        r@ == form_constraints(),
{
    let mut cs: Vec<Extent> = Vec::new();
    let mut i: usize = 0;
    while i < 5
        invariant
            i <= 5,
            cs@ == form_constraints().take(2 * i as int),
        decreases 5 - i,
    {
        cs.push(Extent::Length(1));
        cs.push(Extent::Length(3));
        assert(cs@ =~= form_constraints().take(2 * (i + 1) as int));
        i = i + 1;
    }
    cs.push(Extent::Length(2));
    cs.push(Extent::Min(0));
    assert(cs@ =~= form_constraints());
    cs
}

/// Where a form row starts, counted from the top of the popup's inner
/// area, when the rows get the lines their constraints ask for: row `i` of
/// the first ten (labels at even, input boxes at odd indices) starts at
/// `2 * i` or `2 * i - 1`, the help line at 20 and the rest at 22.
pub open spec fn form_row_offset(i: int) -> int {
    if i < 10 {
        if i % 2 == 0 {
            2 * i
        } else {
            2 * i - 1
        }
    } else if i == 10 {
        20
    } else {
        22
    }
}

/// The lines of form row `i` when the rows fit: 1 for a label, 3 for an
/// input box, 2 for the help line.
pub open spec fn form_row_lines(i: int) -> int {
    if i < 10 {
        if i % 2 == 0 {
            1
        } else {
            3
        }
    } else {
        2
    }
}

/// The form constraints are lengths around one minimum, asking for 22
/// lines, and when they fit the rows follow [`form_row_offset`].
proof fn lemma_form_fitted(size: int)
    ensures
        lengths_and_one_min(form_constraints()),
        floor_total(form_constraints(), 12) == 22,
        forall|i: int| 0 <= i <= 11 ==> #[trigger] fitted_offset(form_constraints(), size, i)
            == form_row_offset(i),
        fitted_offset(form_constraints(), size, 12) == size,
{
    let cs = form_constraints();
    assert(cs[11] is Min);
    assert forall|j: int| 0 <= j < 12 && j != 11 implies #[trigger] cs[j] is Length by {}
    assert forall|j: int| 0 <= j < 12 implies #[trigger] cs[j] is Length || cs[j] is Min by {}
    reveal_with_fuel(floor_total, 13);
    reveal_with_fuel(length_total, 13);
    assert(length_total(cs, 12) == 22);
    assert(floor_total(cs, 12) == 22);
    assert(fitted_offset(cs, size, 0) == 0);
    assert(fitted_offset(cs, size, 1) == 1);
    assert(fitted_offset(cs, size, 2) == 4);
    assert(fitted_offset(cs, size, 3) == 5);
    assert(fitted_offset(cs, size, 4) == 8);
    assert(fitted_offset(cs, size, 5) == 9);
    assert(fitted_offset(cs, size, 6) == 12);
    assert(fitted_offset(cs, size, 7) == 13);
    assert(fitted_offset(cs, size, 8) == 16);
    assert(fitted_offset(cs, size, 9) == 17);
    assert(fitted_offset(cs, size, 10) == 20);
    assert(fitted_offset(cs, size, 11) == 22);
    assert(fitted_offset(cs, size, 12) == size);
}

/// The areas inside the form popup, split by [`form_constraints`] (built by
/// [`form_constraint_list`]) within a margin of one cell: label and input
/// box of the `i`-th field at `2 * i` and `2 * i + 1`, the help line at 10.
/// They run top to bottom, each within the popup's inner area and spanning
/// its width. When the inner area has room for the 22 lines the rows ask
/// for, each label is 1 line, each input box 3, the help 2, the last row
/// takes the rest, and every row starts where the one before it ends.
pub fn form_areas(inner: Area) -> (r: Vec<Area>)
    ensures
        r@.len() == 12,
        forall|i: int|
            0 <= i < 12 ==> (#[trigger] r@[i]).x == inner_area(inner, 1).x && r@[i].width
                == inner_area(inner, 1).width,
        forall|i: int|
            0 <= i < 12 ==> inner_area(inner, 1).y <= (#[trigger] r@[i]).y && r@[i].y
                + r@[i].height <= inner_area(inner, 1).y + inner_area(inner, 1).height,
        forall|i: int| 0 <= i < 11 ==> (#[trigger] r@[i]).y + r@[i].height <= r@[i + 1].y,
        extent_along(Axis::Vertical, inner_area(inner, 1)) >= 22 ==> {
            &&& forall|i: int|
                0 <= i < 11 ==> (#[trigger] r@[i]).y == inner_area(inner, 1).y + form_row_offset(i)
                    && r@[i].height == form_row_lines(i)
            &&& r@[11].y == inner_area(inner, 1).y + 22
            &&& r@[11].y + r@[11].height == inner_area(inner, 1).y + extent_along(
                Axis::Vertical,
                inner_area(inner, 1),
            )
        },
{
    let ghost size = extent_along(Axis::Vertical, inner_area(inner, 1));
    proof {
        lemma_form_fitted(size);
    }
    let r = split_area(Axis::Vertical, 1, &form_constraint_list(), inner);
    assert forall|i: int| 0 <= i < 12 implies (#[trigger] r@[i]).x == inner_area(inner, 1).x
        && r@[i].width == inner_area(inner, 1).width by {
        assert(spans_across(Axis::Vertical, r@[i], inner_area(inner, 1)));
    }
    assert forall|i: int| 0 <= i < 12 implies inner_area(inner, 1).y <= (#[trigger] r@[i]).y
        && r@[i].y + r@[i].height <= inner_area(inner, 1).y + inner_area(inner, 1).height by {
        assert(start_along(Axis::Vertical, inner_area(inner, 1)) <= start_along(
            Axis::Vertical,
            r@[i],
        ));
        assert(end_along(Axis::Vertical, r@[i]) <= limit_along(
            Axis::Vertical,
            inner_area(inner, 1),
        ));
    }
    assert forall|i: int| 0 <= i < 11 implies (#[trigger] r@[i]).y + r@[i].height
        <= r@[i + 1].y by {
        assert(end_along(Axis::Vertical, r@[i]) <= start_along(Axis::Vertical, r@[i + 1]));
    }
    proof {
        if size >= 22 {
            assert forall|i: int| 0 <= i < 11 implies (#[trigger] r@[i]).y == inner_area(inner, 1).y
                + form_row_offset(i) && r@[i].height == form_row_lines(i) by {
                assert(start_along(Axis::Vertical, r@[i]) == start_along(
                    Axis::Vertical,
                    inner_area(inner, 1),
                ) + fitted_offset(form_constraints(), size, i));
                assert(end_along(Axis::Vertical, r@[i]) == start_along(
                    Axis::Vertical,
                    inner_area(inner, 1),
                ) + fitted_offset(form_constraints(), size, i + 1));
                assert(fitted_offset(form_constraints(), size, i + 1) == form_row_offset(i + 1));
            }
            assert(start_along(Axis::Vertical, r@[11]) == start_along(
                Axis::Vertical,
                inner_area(inner, 1),
            ) + fitted_offset(form_constraints(), size, 11));
            assert(end_along(Axis::Vertical, r@[11]) == start_along(
                Axis::Vertical,
                inner_area(inner, 1),
            ) + fitted_offset(form_constraints(), size, 12));
        }
    }
    r
}

/// The note shown after a server in the list: its tags in brackets, or
/// nothing when it has none.
pub open spec fn tags_note(tags: Seq<char>) -> Seq<char> {
    if tags.len() == 0 {
        Seq::empty()
    } else {
        "  ["@ + tags + "]"@
    }
}

/// The tag note of a server in the list.
pub fn server_tags_text(s: &Server) -> (r: String)
    ensures
        r@ == tags_note(s.tags@),
{
    if s.tags.as_str().is_empty() {
        String::new()
    } else {
        let mut r = String::from_str("  [");
        r.append(s.tags.as_str());
        r.append("]");
        r
    }
}

/// The three texts of a row of the server list: the alias, the connection
/// after two spaces, and the tag note.
pub open spec fn list_row(s: ServerView, user: Seq<char>) -> (Seq<char>, Seq<char>, Seq<char>) {
    (s.alias, "  "@ + connection_text(s, user), tags_note(s.tags))
}

/// The texts of a server's row in the list; `user` stands for a missing
/// user name.
pub fn server_list_row(s: &Server, user: &str) -> (r: (String, String, String))
    ensures
        (r.0@, r.1@, r.2@) == list_row(s@, user@),
{
    let mut connection = String::from_str("  ");
    connection.append(s.display_connection(user).as_str());
    (s.alias.clone(), connection, server_tags_text(s))
}

/// The highlighted row of the server list: the selected one, or none when
/// the list is empty.
pub fn highlighted_row(app: &App) -> (r: Option<usize>)
    ensures
        r == (if app.servers.len() > 0 {
            Some(app.selected)
        } else {
            None::<usize>
        }),
{
    if app.servers.is_empty() {
        None
    } else {
        Some(app.selected)
    }
}

/// The position counter of the status bar: ` [i/n] ` for the `i`-th of `n`
/// servers, or ` [empty] `.
pub open spec fn counter_text(selected: usize, total: nat) -> Seq<char> {
    if total > 0 {
        " ["@ + decimal_spec((selected + 1) as nat) + "/"@ + decimal_spec(total) + "] "@
    } else {
        " [empty] "@
    }
}

/// The position counter shown in the status bar.
pub fn selection_counter(app: &App) -> (r: String)
    requires
        app.servers.len() > 0 ==> app.selected < usize::MAX,
    ensures
        r@ == counter_text(app.selected, app.servers.len() as nat),
{
    let total = app.servers.len();
    if total > 0 {
        let mut r = String::from_str(" [");
        r.append(decimal((app.selected + 1) as u64).as_str());
        r.append("/");
        r.append(decimal(total as u64).as_str());
        r.append("] ");
        r
    } else {
        String::from_str(" [empty] ")
    }
}

/// The question asked before deleting server `idx`, with `?` standing for
/// the alias when there is no such server.
pub open spec fn delete_question(servers: Seq<ServerView>, idx: usize) -> Seq<char> {
    let name = if idx < servers.len() {
        servers[idx as int].alias
    } else {
        "?"@
    };
    "Delete '"@ + name + "'?"@
}

/// The question of the delete confirmation.
pub fn delete_prompt(app: &App, idx: usize) -> (r: String)
    ensures
        r@ == delete_question(app.servers.deep_view(), idx),
{
    let name: &str = if idx < app.servers.len() {
        app.servers[idx].alias.as_str()
    } else {
        "?"
    };
    let mut r = String::from_str("Delete '");
    r.append(name);
    r.append("'?");
    r
}

/// A terminal colour.
#[derive(Debug, Clone, Copy, PartialEq, Eq, Structural)]
pub enum TermColor {
    /// The terminal's default colour.
    Reset,
    /// One of the 256 indexed colours.
    Indexed(u8),
    /// A true colour.
    Rgb(u8, u8, u8),
}

/// How a terminal cell is drawn.
#[derive(Debug, Clone, Copy, PartialEq, Eq, Structural)]
pub struct CellStyle {
    pub fg: TermColor,
    pub bg: TermColor,
    pub bold: bool,
    pub italic: bool,
    pub underline: bool,
}

/// A cell of the session's terminal screen.
#[derive(Debug)]
pub struct TermCell {
    /// The text of the cell, empty when the cell holds none.
    pub contents: String,
    /// Whether the cell is the right half of a wide character.
    pub wide_continuation: bool,
    pub style: CellStyle,
}

/// Text drawn in one style; `None` is the plain default style.
#[derive(Debug)]
pub struct StyledRun {
    pub text: String,
    pub style: Option<CellStyle>,
}

/// The mathematical content of a [`StyledRun`].
pub struct RunView {
    pub text: Seq<char>,
    pub style: Option<CellStyle>,
}

impl View for StyledRun {
    type V = RunView;

    open spec fn view(&self) -> RunView {
        RunView { text: self.text@, style: self.style }
    }
}

impl DeepView for StyledRun {
    type V = RunView;

    open spec fn deep_view(&self) -> RunView {
        self@
    }
}

/// The mathematical content of a [`TermCell`].
pub struct CellView {
    pub contents: Seq<char>,
    pub wide_continuation: bool,
    pub style: CellStyle,
}

/// What one position of a row contributes to the drawing: nothing for the
/// right half of a wide character, a blank in the default style where the
/// screen has no cell, and otherwise the cell's text (a blank when it has
/// none) in the cell's style.
pub open spec fn cell_piece(c: Option<CellView>) -> Option<RunView> {
    match c {
        None => Some(RunView { text: " "@, style: None }),
        Some(cell) => if cell.wide_continuation {
            None
        } else {
            Some(
                RunView {
                    text: if cell.contents.len() > 0 {
                        cell.contents
                    } else {
                        " "@
                    },
                    style: Some(cell.style),
                },
            )
        },
    }
}

/// The maximal runs of consecutive pieces of the row that share a style,
/// each with the pieces' texts joined.
pub open spec fn row_runs_spec(row: Seq<Option<CellView>>) -> Seq<RunView>
    decreases row.len(),
{
    if row.len() == 0 {
        Seq::empty()
    } else {
        let g = row_runs_spec(row.drop_last());
        match cell_piece(row.last()) {
            None => g,
            Some(p) => if g.len() > 0 && g.last().style == p.style {
                g.update(g.len() - 1, RunView { text: g.last().text + p.text, style: p.style })
            } else {
                g.push(p)
            },
        }
    }
}

/// All the text of a row, in order, as its positions contribute it.
pub open spec fn pieces_text(row: Seq<Option<CellView>>) -> Seq<char>
    decreases row.len(),
{
    if row.len() == 0 {
        Seq::empty()
    } else {
        pieces_text(row.drop_last()) + match cell_piece(row.last()) {
            None => Seq::empty(),
            Some(p) => p.text,
        }
    }
}

/// The texts of a sequence of runs, joined in order.
pub open spec fn runs_text(runs: Seq<RunView>) -> Seq<char>
    decreases runs.len(),
{
    if runs.len() == 0 {
        Seq::empty()
    } else {
        runs_text(runs.drop_last()) + runs.last().text
    }
}

/// Every position of a row is drawn in its own style: a cell that is not the
/// right half of a wide character is drawn in exactly that cell's style
/// (foreground, background, bold, italic, underline unchanged), a position
/// without a cell in the plain style; and no run has a style that is not
/// one of these.
pub proof fn lemma_row_runs_keep_cell_styles(row: Seq<Option<CellView>>)
    ensures
        forall|i: int|
            0 <= i < row.len() && (#[trigger] row[i]) is Some && !row[i]->0.wide_continuation
                ==> exists|j: int|
                0 <= j < row_runs_spec(row).len() && #[trigger] row_runs_spec(row)[j].style
                    == Some(row[i]->0.style),
        forall|i: int|
            0 <= i < row.len() && (#[trigger] row[i]) is None ==> exists|j: int|
                0 <= j < row_runs_spec(row).len() && #[trigger] row_runs_spec(row)[j].style
                    is None,
        forall|j: int|
            #![trigger row_runs_spec(row)[j]]
            0 <= j < row_runs_spec(row).len() ==> exists|i: int|
                0 <= i < row.len() && #[trigger] drawn_in(row[i], row_runs_spec(row)[j].style),
    decreases row.len(),
{
    if row.len() > 0 {
        let prev = row.drop_last();
        lemma_row_runs_keep_cell_styles(prev);
        lemma_row_runs_step(row);
        let g = row_runs_spec(prev);
        let r = row_runs_spec(row);
        let n = row.len() - 1;
        assert forall|i: int|
            0 <= i < row.len() && (#[trigger] row[i]) is Some && !row[i]->0.wide_continuation
                implies exists|j: int|
                0 <= j < r.len() && #[trigger] r[j].style == Some(row[i]->0.style) by {
            if i < n {
                assert(prev[i] == row[i]);
                let j = choose|j: int|
                    0 <= j < g.len() && #[trigger] g[j].style == Some(prev[i]->0.style);
                assert(r[j].style == g[j].style);
            } else {
                assert(r[r.len() - 1].style == Some(row[i]->0.style));
            }
        }
        assert forall|i: int| 0 <= i < row.len() && (#[trigger] row[i]) is None implies exists|
            j: int,
        | 0 <= j < r.len() && #[trigger] r[j].style is None by {
            if i < n {
                assert(prev[i] == row[i]);
                let j = choose|j: int| 0 <= j < g.len() && #[trigger] g[j].style is None;
                assert(r[j].style == g[j].style);
            } else {
                assert(r[r.len() - 1].style is None);
            }
        }
        assert forall|j: int| #![trigger r[j]] 0 <= j < r.len() implies exists|i: int|
            0 <= i < row.len() && #[trigger] drawn_in(row[i], r[j].style) by {
            if j < g.len() {
                assert(r[j].style == g[j].style);
                let i = choose|i: int|
                    0 <= i < prev.len() && #[trigger] drawn_in(prev[i], g[j].style);
                assert(prev[i] == row[i]);
                assert(drawn_in(row[i], r[j].style));
            } else {
                assert(drawn_in(row[n], r[j].style));
            }
        }
    }
}

/// One step of grouping: adding a position to a row keeps the styles of the
/// runs so far at their places, and the runs after them (at most one) have
/// the style the new position is drawn in.
proof fn lemma_row_runs_step(row: Seq<Option<CellView>>)
    requires
        row.len() > 0,
    ensures
        ({
            let g = row_runs_spec(row.drop_last());
            let r = row_runs_spec(row);
            &&& g.len() <= r.len() <= g.len() + 1
            &&& forall|j: int| 0 <= j < g.len() ==> #[trigger] r[j].style == g[j].style
            &&& cell_piece(row.last()) is None ==> r == g
            &&& cell_piece(row.last()) matches Some(p) ==> r.len() > 0 && r[r.len() - 1].style
                == p.style && drawn_in(row.last(), p.style)
        }),
{
}

/// Whether position `c` of a row is drawn in `style`: a missing cell in the
/// plain style, a cell that is not the right half of a wide character in
/// its own style.
pub open spec fn drawn_in(c: Option<CellView>, style: Option<CellStyle>) -> bool {
    match c {
        None => style is None,
        Some(cell) => !cell.wide_continuation && style == Some(cell.style),
    }
}

/// Grouping a row into runs loses, adds and reorders no text; no run is
/// empty; and runs next to each other differ in style, so each run is a
/// maximal stretch of one style.
pub proof fn lemma_row_runs_maximal(row: Seq<Option<CellView>>)
    ensures
        runs_text(row_runs_spec(row)) == pieces_text(row),
        forall|i: int|
            0 <= i < row_runs_spec(row).len() ==> #[trigger] row_runs_spec(row)[i].text.len() > 0,
        forall|i: int|
            0 <= i < row_runs_spec(row).len() - 1 ==> #[trigger] row_runs_spec(row)[i].style
                != row_runs_spec(row)[i + 1].style,
    decreases row.len(),
{
    reveal_strlit(" ");
    if row.len() > 0 {
        lemma_row_runs_maximal(row.drop_last());
        let g = row_runs_spec(row.drop_last());
        let r = row_runs_spec(row);
        match cell_piece(row.last()) {
            None => {},
            Some(p) => {
                assert(p.text.len() > 0);
                if g.len() > 0 && g.last().style == p.style {
                    assert(r.drop_last() =~= g.drop_last());
                    assert(runs_text(g) == runs_text(g.drop_last()) + g.last().text);
                    assert(runs_text(r) =~= runs_text(g) + p.text);
                    assert forall|i: int| 0 <= i < r.len() - 1 implies #[trigger] r[i].style
                        != r[i + 1].style by {
                        assert(r[i].style == g[i].style);
                        assert(r[i + 1].style == g[i + 1].style);
                    }
                } else {
                    assert(r.drop_last() =~= g);
                    assert forall|i: int| 0 <= i < r.len() - 1 implies #[trigger] r[i].style
                        != r[i + 1].style by {
                        if i + 1 < g.len() {
                            assert(r[i + 1] == g[i + 1]);
                        }
                    }
                }
            },
        }
    }
}

/// The mathematical content of one position of a row.
pub open spec fn cell_entry_view(c: Option<TermCell>) -> Option<CellView> {
    match c {
        None => None,
        Some(t) => Some(
            CellView { contents: t.contents@, wide_continuation: t.wide_continuation, style: t.style },
        ),
    }
}

/// Whether two run styles are the same.
fn same_style(a: &Option<CellStyle>, b: &Option<CellStyle>) -> (r: bool)
    ensures
        r == (*a == *b),
{
    match (a, b) {
        (None, None) => true,
        (Some(x), Some(y)) => *x == *y,
        _ => false,
    }
}

/// Groups a row of the session's terminal screen into runs of text in one
/// style, as they are drawn.
pub fn row_runs(row: &Vec<Option<TermCell>>) -> (r: Vec<StyledRun>)
    ensures
        r.deep_view() == row_runs_spec(row@.map_values(|c: Option<TermCell>| cell_entry_view(c))),
{
    let ghost cells = row@.map_values(|c: Option<TermCell>| cell_entry_view(c));
    let mut runs: Vec<StyledRun> = Vec::new();
    let mut run = String::new();
    let mut run_style: Option<CellStyle> = None;
    let mut i: usize = 0;
    proof {
        reveal_strlit(" ");
    }
    assert(cells.subrange(0, 0) =~= Seq::<Option<CellView>>::empty());
    while i < row.len()
        invariant
            i <= row.len(),
            cells == row@.map_values(|c: Option<TermCell>| cell_entry_view(c)),
            " "@.len() == 1,
            run@.len() == 0 ==> runs.deep_view() == row_runs_spec(cells.subrange(0, i as int))
                && runs.deep_view().len() == 0 && run_style is None,
            run@.len() > 0 ==> runs.deep_view().push(RunView { text: run@, style: run_style })
                == row_runs_spec(cells.subrange(0, i as int)),
        decreases row.len() - i,
    {
        let ghost prefix = cells.subrange(0, i as int);
        let ghost next = cells.subrange(0, i + 1);
        assert(next.drop_last() =~= prefix);
        assert(next.last() == cells[i as int]);
        assert(cells[i as int] == cell_entry_view(row@[i as int]));
        let piece: Option<(String, Option<CellStyle>)> = match &row[i] {
            None => Some((String::from_str(" "), None)),
            Some(cell) => {
                if cell.wide_continuation {
                    None
                } else if cell.contents.as_str().is_empty() {
                    Some((String::from_str(" "), Some(cell.style)))
                } else {
                    Some((cell.contents.clone(), Some(cell.style)))
                }
            },
        };
        assert(match piece {
            None => cell_piece(cells[i as int]) is None,
            Some(pc) => cell_piece(cells[i as int]) == Some(RunView { text: pc.0@, style: pc.1 })
                && pc.0@.len() > 0,
        });
        match piece {
            None => {},
            Some((content, style)) => {
                let ghost old_runs = runs.deep_view();
                let ghost old_run = run@;
                if same_style(&style, &run_style) {
                    run.append(content.as_str());
                    assert(old_run.len() == 0 ==> run@ =~= content@);
                } else {
                    if !run.as_str().is_empty() {
                        runs.push(StyledRun { text: run, style: run_style });
                        assert(runs.deep_view() =~= old_runs.push(
                            RunView { text: old_run, style: run_style },
                        ));
                    }
                    run = content;
                    run_style = style;
                }
            },
        }
        i = i + 1;
    }
    if !run.as_str().is_empty() {
        let ghost old_runs = runs.deep_view();
        let ghost old_run = run@;
        runs.push(StyledRun { text: run, style: run_style });
        assert(runs.deep_view() =~= old_runs.push(RunView { text: old_run, style: run_style }));
    }
    assert(cells.subrange(0, row.len() as int) =~= cells);
    runs
}

/// Where the cursor of a running session is drawn: at the session's cursor
/// position within `area`, unless the session hides it or the position lies
/// outside the area.
pub open spec fn session_cursor_spec(area: Area, hidden: bool, row: u16, col: u16) -> Option<
    (u16, u16),
> {
    if !hidden && area.x + col < area.x + area.width && area.y + row < area.y + area.height {
        Some(((area.x + col) as u16, (area.y + row) as u16))
    } else {
        None
    }
}

/// The screen position of a session's cursor, if it is shown.
pub fn session_cursor(area: Area, hidden: bool, row: u16, col: u16) -> (r: Option<(u16, u16)>)
    requires
        !hidden ==> area.x + col <= u16::MAX,
        !hidden ==> area.y + row <= u16::MAX,
        !hidden ==> area.x + area.width <= u16::MAX,
        !hidden ==> area.y + area.height <= u16::MAX,
    ensures
        r == session_cursor_spec(area, hidden, row, col),
{
    if hidden {
        return None;
    }
    let x = area.x + col;
    let y = area.y + row;
    if x < area.x + area.width && y < area.y + area.height {
        Some((x, y))
    } else {
        None
    }
}

/// The cursor position in a focused input box: just after the text, one
/// cell in from the box's border (the text's length counted in bytes).
pub open spec fn form_cursor_spec(input: Area, byte_len: usize) -> (u16, u16) {
    ((input.x + 1 + (#[verifier::truncate] (byte_len as u16))) as u16, (input.y + 1) as u16)
}

/// The cursor position in the focused input box holding `value`.
pub fn form_cursor(input: Area, value: &str) -> (r: (u16, u16))
    requires
        input.x + 1 + (#[verifier::truncate] (value.len() as u16)) <= u16::MAX,
        input.y + 1 <= u16::MAX,
    ensures
        r == form_cursor_spec(input, value.len()),
{
    let len = #[verifier::truncate] (value.len() as u16);
    (input.x + 1 + len, input.y + 1)
}

} // verus!
