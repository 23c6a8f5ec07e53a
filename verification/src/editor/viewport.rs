//! The part of a source that is on the screen.

use vstd::prelude::*;

verus! {

/// Where the cursor is: its line, its column on the screen, and its character.
#[derive(Clone, Copy, Debug, PartialEq, Eq, Structural)]
pub struct CursorPosition {
    pub line: usize,
    pub display_column: usize,
    pub char_index: usize,
}

#[derive(Clone, Copy, Debug, PartialEq, Eq, Structural)]
pub struct Viewport {
    pub top_line: usize,
    pub left_column: usize,
}

impl Default for Viewport {
    fn default() -> (r: Viewport)
        ensures
            r == (Viewport { top_line: 0, left_column: 0 }),
    {
        Viewport { top_line: 0, left_column: 0 }
    }
}

/// The first line or column of a window of a size that shows a place, moved as
/// little as may be.
pub open spec fn followed(first: int, at: int, size: int) -> int {
    if at < first {
        at
    } else if size > 0 && at >= first + size {
        at - size + 1
    } else {
        first
    }
}

/// A number moved by a distance, within what can be held.
pub open spec fn shifted(n: int, delta: int) -> int {
    if n + delta < 0 {
        0
    } else if n + delta > usize::MAX {
        usize::MAX as int
    } else {
        n + delta
    }
}

/// The last line that may be the first on the screen.
pub open spec fn last_top(line_count: int, height: int) -> int {
    if line_count >= height {
        line_count - height
    } else {
        0
    }
}

pub open spec fn least(a: int, b: int) -> int {
    if a <= b {
        a
    } else {
        b
    }
}

fn follow(first: usize, at: usize, size: usize) -> (r: usize)
    ensures
        r == followed(first as int, at as int, size as int),
{
    if at < first {
        at
    } else if size > 0 && at - first >= size {
        at - size + 1
    } else {
        first
    }
}

fn shift(n: usize, delta: isize) -> (r: usize)
    ensures
        r == shifted(n as int, delta as int),
{
    let sum: i128 = n as i128 + delta as i128;
    if sum < 0 {
        0
    } else if sum > usize::MAX as i128 {
        usize::MAX
    } else {
        sum as usize
    }
}

impl Viewport {
    pub fn top_line(&self) -> (r: usize)
        ensures
            r == self.top_line,
    {
        self.top_line
    }

    pub fn left_column(&self) -> (r: usize)
        ensures
            r == self.left_column,
    {
        self.left_column
    }

    /// Moves so that the cursor is shown.
    pub fn follow_cursor(&mut self, cursor: CursorPosition, width: usize, height: usize)
        ensures
            final(self).top_line == followed(
                old(self).top_line as int,
                cursor.line as int,
                height as int,
            ),
            final(self).left_column == followed(
                old(self).left_column as int,
                cursor.display_column as int,
                width as int,
            ),
    {
        self.top_line = follow(self.top_line, cursor.line, height);
        self.left_column = follow(self.left_column, cursor.display_column, width);
    }

    pub fn scroll_vertical(&mut self, delta: isize, line_count: usize, height: usize)
        ensures
            final(self).top_line == least(
                shifted(old(self).top_line as int, delta as int),
                last_top(line_count as int, height as int),
            ),
            final(self).left_column == old(self).left_column,
    {
        let to = shift(self.top_line, delta);
        self.set_top_line(to, line_count, height);
    }

    pub fn set_top_line(&mut self, top_line: usize, line_count: usize, height: usize)
        ensures
            final(self).top_line == least(
                top_line as int,
                last_top(line_count as int, height as int),
            ),
            final(self).left_column == old(self).left_column,
    {
        let last: usize = if line_count >= height {
            line_count - height
        } else {
            0
        };
        self.top_line = if top_line <= last {
            top_line
        } else {
            last
        };
    }

    pub fn scroll_horizontal(&mut self, delta: isize)
        ensures
            final(self).left_column == shifted(old(self).left_column as int, delta as int),
            final(self).top_line == old(self).top_line,
    {
        self.left_column = shift(self.left_column, delta);
    }
}

/// After following the cursor a window that shows anything shows the cursor, and
/// following it again moves nothing.
pub proof fn the_cursor_is_shown(first: int, at: int, size: int)
    requires
        size > 0,
    ensures
        followed(first, at, size) <= at < followed(first, at, size) + size,
        followed(followed(first, at, size), at, size) == followed(first, at, size),
{
}

/// Scrolling never shows an empty screen below the last line of a source that
/// fills it.
pub proof fn scrolling_stays_in_the_source(top: int, delta: int, line_count: int, height: int)
    requires
        0 <= height <= line_count,
    ensures
        least(shifted(top, delta), last_top(line_count, height)) + height <= line_count,
{
}

} // verus!
