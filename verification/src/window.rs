//! The part of a list of lines that fits on the screen.
use vstd::prelude::*;

verus! {

/// The first of the lines that are shown, where `total` lines are scrolled up by `offset`
/// from the end and `available` of them fit.
pub open spec fn window_start(total: int, available: int, offset: int) -> int {
    if total <= available + offset {
        0
    } else {
        total - available - offset
    }
}

/// How many lines are shown.
pub open spec fn window_len(total: int, available: int) -> int {
    if total <= available {
        total
    } else {
        available
    }
}

/// The lines that are shown.
pub open spec fn window<T>(all: Seq<T>, available: int, offset: int) -> Seq<T> {
    let start = window_start(all.len() as int, available, offset);
    all.subrange(start, start + window_len(all.len() as int, available))
}

/// The first of the lines that are shown, and the end of them.
pub fn visible_window(total: usize, available: usize, offset: usize) -> (r: (usize, usize))
    ensures
        r.0 == window_start(total as int, available as int, offset as int),
        r.1 == r.0 + window_len(total as int, available as int),
        r.0 <= r.1 <= total,
{
    if total > available {
        let max_scroll: usize = total - available;
        let actual_scroll: usize = if offset < max_scroll {
            offset
        } else {
            max_scroll
        };
        let start: usize = total - (available + actual_scroll);
        (start, start + available)
    } else {
        (0, total)
    }
}

/// The lines that are shown are lines of the list, and they are the last ones while
/// nothing is scrolled.
pub proof fn unscrolled_shows_the_end<T>(all: Seq<T>, available: int)
    requires
        available >= 0,
    ensures
        window(all, available, 0) == all.skip(all.len() - window_len(all.len() as int, available)),
{
    assert(window(all, available, 0) =~= all.skip(
        all.len() - window_len(all.len() as int, available),
    ));
}

/// However far up the list is scrolled, as many lines are shown as fit, and the first
/// ones are shown at the end of the way.
pub proof fn scrolling_ends_at_the_start<T>(all: Seq<T>, available: int, offset: int)
    requires
        available >= 0,
        offset >= 0,
    ensures
        window(all, available, offset).len() == window_len(all.len() as int, available),
        all.len() <= available + offset ==> window(all, available, offset) == all.take(
            window_len(all.len() as int, available),
        ),
{
}

/// Every line can be scrolled into view.
pub proof fn every_line_can_be_shown<T>(all: Seq<T>, available: int, i: int) -> (offset: int)
    requires
        available > 0,
        0 <= i < all.len(),
    ensures
        0 <= offset <= all.len(),
        window_start(all.len() as int, available, offset) <= i < window_start(
            all.len() as int,
            available,
            offset,
        ) + window_len(all.len() as int, available),
{
    let total = all.len() as int;
    if total <= available + (total - i - 1) {
        total
    } else {
        total - i - 1
    }
}

/// One step up brings one earlier line into view, until the first one is.
pub proof fn one_step_up(total: int, available: int, offset: int)
    requires
        0 <= available,
        0 <= offset,
    ensures
        window_start(total, available, offset + 1) == if window_start(total, available, offset)
            > 0 {
            window_start(total, available, offset) - 1
        } else {
            0
        },
{
}

} // verus!
