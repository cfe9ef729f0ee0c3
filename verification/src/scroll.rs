//! Viewport scrolling: keeping the cursor line inside the visible window.

use vstd::prelude::*;

verus! {

/// The scroll offset that keeps `cursor_line` visible in a window of
/// `viewport_height` lines, starting from the offset `scroll_offset`.
pub open spec fn scrolled(cursor_line: int, scroll_offset: int, viewport_height: int) -> int {
    if cursor_line - scroll_offset >= viewport_height {
        cursor_line - viewport_height + 1
    } else if cursor_line < scroll_offset {
        cursor_line
    } else {
        scroll_offset
    }
}

/// Recomputes the scroll offset after the cursor has moved.
pub fn update_scroll(cursor_line: usize, scroll_offset: usize, viewport_height: usize) -> (r: usize)
    requires
        scrolled(cursor_line as int, scroll_offset as int, viewport_height as int) <= usize::MAX,
    ensures
        r == scrolled(cursor_line as int, scroll_offset as int, viewport_height as int),
{
    if cursor_line < scroll_offset {
        cursor_line
    } else if cursor_line - scroll_offset >= viewport_height {
        cursor_line - viewport_height + 1
    } else {
        scroll_offset
    }
}

} // verus!
