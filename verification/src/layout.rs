//! Where things stand on the screen.
use ratatui::layout;
use vstd::prelude::*;

verus! {

/// A rectangle of the screen.
#[derive(Debug, Clone, Copy, PartialEq, Eq, Structural)]
pub struct Rect {
    pub x: u16,
    pub y: u16,
    pub width: u16,
    pub height: u16,
}

/// The size that a part of a rectangle is to have.
#[derive(Debug, Clone, Copy, PartialEq, Eq, Structural)]
pub enum Constraint {
    /// A share of the whole, in percent.
    Percentage(u16),
    /// So many cells.
    Length(u16),
    /// So many cells or more.
    Min(u16),
}

/// Whether parts stand side by side or one below the other.
#[derive(Debug, Clone, Copy, PartialEq, Eq, Structural)]
pub enum Direction {
    Horizontal,
    Vertical,
}

/// The end of a stretch of cells on the screen, which has no cell beyond the largest number.
pub open spec fn end_of(start: u16, len: u16) -> int {
    if start + len > u16::MAX {
        u16::MAX as int
    } else {
        start + len
    }
}

/// How many cells an area has along a direction.
pub open spec fn extent(direction: Direction, area: Rect) -> int {
    match direction {
        Direction::Horizontal => end_of(area.x, area.width) - area.x,
        Direction::Vertical => end_of(area.y, area.height) - area.y,
    }
}

/// The strip of an area from one cell along a direction to another: across the direction it
/// is as large as the area.
pub open spec fn strip(direction: Direction, area: Rect, from: int, to: int) -> Rect {
    match direction {
        Direction::Horizontal => Rect {
            x: (area.x + from) as u16,
            y: area.y,
            width: (to - from) as u16,
            height: area.height,
        },
        Direction::Vertical => Rect {
            x: area.x,
            y: (area.y + from) as u16,
            width: area.width,
            height: (to - from) as u16,
        },
    }
}

/// A share of so many cells, in percent, rounded; a half counts as a whole.
pub open spec fn share(cells: int, percent: int) -> int {
    (cells * percent + 50) / 100
}

/// The strip of an area between two shares of it.
pub open spec fn share_of(direction: Direction, area: Rect, from: int, to: int) -> Rect {
    strip(
        direction,
        area,
        share(extent(direction, area), from),
        share(extent(direction, area), to),
    )
}

/// The sum of the first `n` shares.
pub open spec fn shares(constraints: Seq<Constraint>, n: int) -> int
    decreases n,
{
    if n <= 0 {
        0
    } else {
        shares(constraints, n - 1) + match constraints[n - 1] {
            Constraint::Percentage(percent) => percent as int,
            _ => 0,
        }
    }
}

/// All sizes are shares, and they make up the whole.
pub open spec fn whole(constraints: Seq<Constraint>) -> bool {
    &&& forall|i: int| 0 <= i < constraints.len() ==> #[trigger] constraints[i] is Percentage
    &&& shares(constraints, constraints.len() as int) == 100
}

/// The first cells of an area, as far as it has so many.
pub open spec fn at_most(direction: Direction, area: Rect, cells: int) -> int {
    if cells < extent(direction, area) {
        cells
    } else {
        extent(direction, area)
    }
}

/// `ratatui::layout::Layout::split` divides a rectangle into strips, one after the other,
/// one for each constraint. Shares that make up the whole each get what their part of the
/// rectangle rounds to. Of a fixed length and a rest, the length gets so many cells where
/// there are so many, and the rest gets what is left. Of other constraints, which may be in
/// each other's way, nothing is said but how many strips come out.
#[verifier::external_body]
fn split(direction: Direction, constraints: &Vec<Constraint>, area: Rect) -> (r: Vec<Rect>)
    ensures
        r@.len() == constraints@.len(),
        whole(constraints@) ==> forall|i: int|
            0 <= i < r@.len() ==> #[trigger] r@[i] == share_of(
                direction,
                area,
                shares(constraints@, i),
                shares(constraints@, i + 1),
            ),
        forall|length: u16|
            constraints@ == seq![Constraint::Length(length), Constraint::Min(0)] ==> r@ == seq![
                strip(direction, area, 0, at_most(direction, area, length as int)),
                #[trigger] strip(
                    direction,
                    area,
                    at_most(direction, area, length as int),
                    extent(direction, area),
                ),
            ],
{
    let along = match direction {
        Direction::Horizontal => layout::Direction::Horizontal,
        Direction::Vertical => layout::Direction::Vertical,
    };
    let sizes = constraints.iter().map(|c| match c {
        Constraint::Percentage(p) => layout::Constraint::Percentage(*p),
        Constraint::Length(n) => layout::Constraint::Length(*n),
        Constraint::Min(n) => layout::Constraint::Min(*n),
    });
    let whole = layout::Rect { x: area.x, y: area.y, width: area.width, height: area.height };
    let parts = layout::Layout::default().direction(along).constraints(sizes).split(whole);
    parts.iter().map(|p| Rect { x: p.x, y: p.y, width: p.width, height: p.height }).collect()
}

/// Divides a rectangle into two shares.
pub fn in_two(direction: Direction, area: Rect, first: u16, second: u16) -> (r: (Rect, Rect))
    requires
        first + second == 100,
    ensures
        r.0 == share_of(direction, area, 0, first as int),
        r.1 == share_of(direction, area, first as int, 100),
{
    let constraints = vec![Constraint::Percentage(first), Constraint::Percentage(second)];
    let parts = split(direction, &constraints, area);
    assert(whole(constraints@) && shares(constraints@, 1) == first) by {
        reveal_with_fuel(shares, 3);
    }
    (parts[0], parts[1])
}

/// Divides a rectangle into three shares.
pub fn in_three(
    direction: Direction,
    area: Rect,
    first: u16,
    second: u16,
    third: u16,
) -> (r: (Rect, Rect, Rect))
    requires
        first + second + third == 100,
    ensures
        r.0 == share_of(direction, area, 0, first as int),
        r.1 == share_of(direction, area, first as int, first + second),
        r.2 == share_of(direction, area, first + second, 100),
{
    let constraints = vec![
        Constraint::Percentage(first),
        Constraint::Percentage(second),
        Constraint::Percentage(third),
    ];
    let parts = split(direction, &constraints, area);
    assert(whole(constraints@) && shares(constraints@, 1) == first && shares(constraints@, 2)
        == first + second) by {
        reveal_with_fuel(shares, 4);
    }
    (parts[0], parts[1], parts[2])
}

/// Divides a rectangle into its first cells and the rest.
pub fn head_and_rest(direction: Direction, area: Rect, length: u16) -> (r: (Rect, Rect))
    ensures
        r.0 == strip(direction, area, 0, at_most(direction, area, length as int)),
        r.1 == strip(
            direction,
            area,
            at_most(direction, area, length as int),
            extent(direction, area),
        ),
{
    let constraints = vec![Constraint::Length(length), Constraint::Min(0)];
    let parts = split(direction, &constraints, area);
    assert(constraints@ =~= seq![Constraint::Length(length), Constraint::Min(0)]);
    let ghost rest = strip(
        direction,
        area,
        at_most(direction, area, length as int),
        extent(direction, area),
    );
    assert(parts@[1] == rest);
    (parts[0], parts[1])
}

/// `part` lies within `area`.
pub open spec fn inside(area: Rect, part: Rect) -> bool {
    &&& area.x <= part.x
    &&& part.x + part.width <= end_of(area.x, area.width)
    &&& area.y <= part.y
    &&& part.y + part.height <= end_of(area.y, area.height)
}

/// A share of so many cells is no more than all of them, and grows with the percentage.
pub proof fn shares_are_in_order(cells: int, from: int, to: int)
    requires
        0 <= cells,
        0 <= from <= to <= 100,
    ensures
        0 <= share(cells, from) <= share(cells, to) <= cells,
        share(cells, 0) == 0,
        share(cells, 100) == cells,
{
    assert(0 <= cells * from <= cells * to <= cells * 100) by (nonlinear_arith)
        requires
            0 <= cells,
            0 <= from <= to <= 100,
    ;
    assert(cells * 0 == 0);
}

/// A strip between two shares of an area that is on the screen lies within the area.
pub proof fn shares_lie_inside(direction: Direction, area: Rect, from: int, to: int)
    requires
        area.x + area.width <= u16::MAX,
        area.y + area.height <= u16::MAX,
        0 <= from <= to <= 100,
    ensures
        inside(area, share_of(direction, area, from, to)),
{
    shares_are_in_order(extent(direction, area), from, to);
}

/// Where one share ends, the next one begins.
pub proof fn shares_leave_no_gap(direction: Direction, area: Rect, from: int, at: int, to: int)
    requires
        0 <= from <= at <= to <= 100,
    ensures
        ({
            let before = share_of(direction, area, from, at);
            let after = share_of(direction, area, at, to);
            match direction {
                Direction::Horizontal => after.x == before.x + before.width,
                Direction::Vertical => after.y == before.y + before.height,
            }
        }),
{
    shares_are_in_order(extent(direction, area), from, at);
    shares_are_in_order(extent(direction, area), at, to);
}

} // verus!
