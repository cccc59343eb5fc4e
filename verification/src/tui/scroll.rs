//! Scrolling through rows.

use vstd::prelude::*;

verus! {

/// The largest of two numbers.
pub open spec fn larger(a: int, b: int) -> int {
    if a < b {
        b
    } else {
        a
    }
}

/// The smallest of two numbers.
pub open spec fn smaller(a: int, b: int) -> int {
    if a < b {
        a
    } else {
        b
    }
}

/// `a - b`, or 0 where that is negative.
pub open spec fn less(a: int, b: int) -> int {
    larger(a - b, 0)
}

/// `a - b`, or 0 where that is negative.
pub fn minus(a: usize, b: usize) -> (n: usize)
    ensures
        n == less(a as int, b as int),
{
    if a < b {
        0
    } else {
        a - b
    }
}

/// The smallest of two numbers.
pub fn min_of(a: usize, b: usize) -> (n: usize)
    ensures
        n == smaller(a as int, b as int),
{
    if a < b {
        a
    } else {
        b
    }
}

/// The largest of two numbers.
pub fn max_of(a: usize, b: usize) -> (n: usize)
    ensures
        n == larger(a as int, b as int),
{
    if a < b {
        b
    } else {
        a
    }
}

/// The offset at which the last of `total` rows stands at the bottom of the viewport; a viewport
/// that was not drawn yet counts as one row.
pub open spec fn last_offset(total: int, viewport: int) -> int {
    less(total, larger(viewport, 1))
}

/// The offset after scrolling by `delta` rows, down where it is positive: neither before the first
/// row nor past the last viewport.
pub open spec fn scrolled(current: int, delta: int, total: int, viewport: int) -> int {
    smaller(larger(current + delta, 0), last_offset(total, viewport))
}

/// Computes the offset after scrolling by `delta` rows, clamped so that the last viewport of
/// content stays visible.
pub fn clamped_scroll(current: usize, delta: isize, total: usize, viewport: usize) -> (offset: usize)
    requires
        current + delta <= usize::MAX,
    ensures
        offset == scrolled(current as int, delta as int, total as int, viewport as int),
{
    let stepped: usize = if delta < 0 {
        let back: usize = (-(delta + 1)) as usize;
        if current <= back {
            0
        } else {
            current - back - 1
        }
    } else {
        current + delta as usize
    };
    min_of(stepped, minus(total, max_of(viewport, 1)))
}

/// Scrolling leaves the last viewport of content visible, wherever it begins and whichever way it
/// goes.
pub proof fn lemma_scroll_stays_in_range(current: int, delta: int, total: int, viewport: int)
    ensures
        0 <= scrolled(current, delta, total, viewport) <= last_offset(total, viewport),
{
}

/// Scrolling down and back up by the same number of rows returns to the offset, unless the end
/// was reached.
pub proof fn lemma_scroll_back(current: int, delta: int, total: int, viewport: int)
    requires
        0 <= current,
        0 < delta,
        current + delta <= last_offset(total, viewport),
    ensures
        scrolled(scrolled(current, delta, total, viewport), -delta, total, viewport) == current,
{
}

/// How many of `total` rows show from offset `scroll` on, in a viewport of `height` rows.
pub open spec fn shown_rows(total: int, scroll: int, height: int) -> int {
    smaller(less(total, scroll), height)
}

/// How many of `total` rows show from offset `scroll` on, in a viewport of `height` rows.
pub fn rows_shown(total: usize, scroll: usize, height: usize) -> (n: usize)
    ensures
        n == shown_rows(total as int, scroll as int, height as int),
{
    min_of(minus(total, scroll), height)
}

/// The offset at which the last of `total` rows stands at the bottom, or 0 where they all fit.
pub open spec fn end_offset(total: int, height: int) -> int {
    total - smaller(height, total)
}

/// The offset and the cursor after one step down a list: the cursor moves down to the last row
/// shown, then the list scrolls.
pub open spec fn down(scroll: int, cursor: int, total: int, height: int) -> (int, int) {
    if total == 0 {
        (scroll, cursor)
    } else if cursor < less(shown_rows(total, scroll, height), 1) {
        (scroll, cursor + 1)
    } else if scroll < end_offset(total, height) {
        (scroll + 1, cursor)
    } else {
        (scroll, cursor)
    }
}

/// The offset and the cursor after one step up a list.
pub open spec fn up(scroll: int, cursor: int) -> (int, int) {
    if cursor > 0 {
        (scroll, cursor - 1)
    } else if scroll > 0 {
        (scroll - 1, cursor)
    } else {
        (scroll, cursor)
    }
}

/// Moves one step down a list.
pub fn step_down(scroll: usize, cursor: usize, total: usize, height: usize) -> (place: (usize, usize))
    ensures
        (place.0 as int, place.1 as int) == down(
            scroll as int,
            cursor as int,
            total as int,
            height as int,
        ),
{
    if total == 0 {
        return (scroll, cursor);
    }
    let max_cursor: usize = minus(rows_shown(total, scroll, height), 1);
    if cursor < max_cursor {
        (scroll, cursor + 1)
    } else {
        let max_scroll: usize = total - min_of(height, total);
        if scroll < max_scroll {
            (scroll + 1, cursor)
        } else {
            (scroll, cursor)
        }
    }
}

/// Moves one step up a list.
pub fn step_up(scroll: usize, cursor: usize) -> (place: (usize, usize))
    ensures
        (place.0 as int, place.1 as int) == up(scroll as int, cursor as int),
{
    if cursor > 0 {
        (scroll, cursor - 1)
    } else if scroll > 0 {
        (scroll - 1, cursor)
    } else {
        (scroll, cursor)
    }
}

/// Whether the cursor stands on a row that shows.
pub open spec fn on_a_row(scroll: int, cursor: int, total: int, height: int) -> bool {
    &&& 0 <= scroll
    &&& 0 <= cursor < shown_rows(total, scroll, height)
}

/// A step down moves to the next row, or stays on the last one, and the cursor stays on a row
/// that shows.
pub proof fn lemma_down_moves_one_row(scroll: int, cursor: int, total: int, height: int)
    requires
        on_a_row(scroll, cursor, total, height),
    ensures
        ({
            let (s, c) = down(scroll, cursor, total, height);
            &&& on_a_row(s, c, total, height)
            &&& s + c == smaller(scroll + cursor + 1, total - 1)
        }),
{
}

/// A step up moves to the row before, or stays on the first one, and the cursor stays on a row
/// that shows.
pub proof fn lemma_up_moves_one_row(scroll: int, cursor: int, total: int, height: int)
    requires
        on_a_row(scroll, cursor, total, height),
    ensures
        ({
            let (s, c) = up(scroll, cursor);
            &&& on_a_row(s, c, total, height)
            &&& s + c == less(scroll + cursor, 1)
        }),
{
}

/// The cursor, moved up to the last row that shows where it would stand below it.
pub open spec fn kept_cursor(scroll: int, cursor: int, total: int, height: int) -> int {
    smaller(cursor, less(shown_rows(total, scroll, height), 1))
}

/// Moves the cursor up to the last row that shows, where it stands below it.
pub fn keep_cursor(scroll: usize, cursor: usize, total: usize, height: usize) -> (kept: usize)
    ensures
        kept == kept_cursor(scroll as int, cursor as int, total as int, height as int),
{
    min_of(cursor, minus(rows_shown(total, scroll, height), 1))
}

/// The smaller of two numbers is one of them and exceeds neither, the larger is one of them and
/// is exceeded by neither, and a difference that would be negative is nothing.
pub proof fn lemma_bounds(a: int, b: int)
    ensures
        smaller(a, b) <= a && smaller(a, b) <= b && (smaller(a, b) == a || smaller(a, b) == b),
        larger(a, b) >= a && larger(a, b) >= b && (larger(a, b) == a || larger(a, b) == b),
        a >= b ==> less(a, b) == a - b,
        a <= b ==> less(a, b) == 0,
{
}

/// Scrolling moves by as many rows as it is asked to, unless the first row or the last viewport is
/// in the way.
pub proof fn lemma_scroll_moves_as_asked(current: int, delta: int, total: int, viewport: int)
    requires
        viewport > 0,
        total >= viewport,
        0 <= current <= total - viewport,
    ensures
        0 <= current + delta <= total - viewport ==> scrolled(current, delta, total, viewport)
            == current + delta,
        current + delta < 0 ==> scrolled(current, delta, total, viewport) == 0,
        current + delta > total - viewport ==> scrolled(current, delta, total, viewport) == total
            - viewport,
        last_offset(total, viewport) == total - viewport,
        end_offset(total, viewport) == total - viewport,
{
}

/// A cursor is kept where it stands on a row that shows, and else moved to the last that does.
pub proof fn lemma_cursor_is_kept_in_view(scroll: int, cursor: int, total: int, height: int)
    requires
        0 <= scroll < total,
        0 < height,
        0 <= cursor,
    ensures
        ({
            let kept = kept_cursor(scroll, cursor, total, height);
            &&& 0 <= kept <= cursor
            &&& kept < height && scroll + kept < total
            &&& cursor < height && scroll + cursor < total ==> kept == cursor
            &&& !(cursor < height && scroll + cursor < total) ==> kept == height - 1 || scroll + kept
                == total - 1
        }),
{
}

/// As many rows show as the viewport has and as there are from the offset on.
pub proof fn lemma_rows_show_while_there_are_some(total: int, scroll: int, height: int, i: int)
    requires
        0 <= total,
        0 <= scroll,
        0 <= height,
        0 <= i,
    ensures
        i < shown_rows(total, scroll, height) <==> i < height && scroll + i < total,
{
}

} // verus!
