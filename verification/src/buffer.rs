//! The playback buffer: the text being shown, its cursor, and the edit steps
//! that morph the old text into the new one.

use vstd::prelude::*;
use crate::snapshot::DiffSnapshot;
use crate::scroll::{scrolled, update_scroll};
use crate::text::{copy_line, rows, strings_of, texts};

verus! {

/// One unit of the animation.
#[derive(Clone, Copy, Debug, PartialEq, Eq, Structural)]
pub enum EditStep {
    /// Pass over an unchanged line: the cursor goes to the start of the next
    /// line.
    SkipContextLine,
    /// Remove the line under the cursor.
    DeleteLine,
    /// Type one character at the cursor. Typing at column 0 opens a new line
    /// at the cursor first; a line feed closes the line that is being typed.
    TypeChar(char),
}

/// The text state of a buffer as contracts see it.
pub struct BufferState {
    pub lines: Seq<Seq<char>>,
    pub cursor_line: int,
    pub cursor_col: int,
    pub line_offset: int,
}

impl BufferState {
    /// The cursor is on a line or just below the last one, and a column other
    /// than 0 lies within the line under the cursor.
    pub open spec fn wf(self) -> bool {
        &&& 0 <= self.cursor_line <= self.lines.len()
        &&& 0 <= self.cursor_col
        &&& self.cursor_col > 0 ==> self.cursor_line < self.lines.len() && self.cursor_col
            <= self.lines[self.cursor_line].len()
    }

    /// The state in which playback of a change starts: the old lines, the
    /// cursor at the top.
    pub open spec fn initial(old_lines: Seq<Seq<char>>) -> BufferState {
        BufferState { lines: old_lines, cursor_line: 0, cursor_col: 0, line_offset: 0 }
    }

    /// The state after one step.
    pub open spec fn step(self, e: EditStep) -> BufferState {
        match e {
            EditStep::SkipContextLine => {
                if self.cursor_line < self.lines.len() {
                    BufferState { cursor_line: self.cursor_line + 1, cursor_col: 0, ..self }
                } else {
                    self
                }
            },
            EditStep::DeleteLine => {
                if self.cursor_line < self.lines.len() {
                    BufferState {
                        lines: self.lines.remove(self.cursor_line),
                        cursor_col: 0,
                        line_offset: self.line_offset - 1,
                        ..self
                    }
                } else {
                    self
                }
            },
            EditStep::TypeChar(c) => {
                let opened = self.open_line();
                if c == '\n' {
                    BufferState {
                        cursor_line: opened.cursor_line + 1,
                        cursor_col: 0,
                        ..opened
                    }
                } else {
                    let line = opened.lines[opened.cursor_line];
                    BufferState {
                        lines: opened.lines.update(
                            opened.cursor_line,
                            line.insert(opened.cursor_col, c),
                        ),
                        cursor_col: opened.cursor_col + 1,
                        ..opened
                    }
                }
            },
        }
    }

    /// At column 0 a new empty line is opened at the cursor; elsewhere nothing
    /// changes.
    pub open spec fn open_line(self) -> BufferState {
        if self.cursor_col == 0 {
            BufferState {
                lines: self.lines.insert(self.cursor_line, Seq::empty()),
                line_offset: self.line_offset + 1,
                ..self
            }
        } else {
            self
        }
    }

    /// The state after the steps `steps`, applied in order.
    pub open spec fn replay(self, steps: Seq<EditStep>) -> BufferState
        decreases steps.len(),
    {
        if steps.len() == 0 {
            self
        } else {
            self.replay(steps.drop_last()).step(steps.last())
        }
    }
}

/// Every step keeps a well-formed state well-formed, and the line offset
/// moves with the number of lines.
pub proof fn lemma_step_wf(s: BufferState, e: EditStep)
    requires
        s.wf(),
    ensures
        s.step(e).wf(),
        s.step(e).line_offset - s.step(e).lines.len() == s.line_offset - s.lines.len(),
{
}

/// The live text of one file change: its lines, the cursor, the scroll offset,
/// and the snapshot that the text is morphing through.
#[derive(Debug)]
pub struct PlaybackBuffer {
    lines: Vec<Vec<char>>,
    cursor_line: usize,
    cursor_col: usize,
    scroll_offset: usize,
    line_offset: isize,
    snapshot: DiffSnapshot,
}

impl View for PlaybackBuffer {
    type V = BufferState;

    closed spec fn view(&self) -> BufferState {
        BufferState {
            lines: rows(self.lines@),
            cursor_line: self.cursor_line as int,
            cursor_col: self.cursor_col as int,
            line_offset: self.line_offset as int,
        }
    }
}

impl PlaybackBuffer {
    /// The snapshot that the text is morphing through.
    pub closed spec fn snapshot(&self) -> DiffSnapshot {
        self.snapshot
    }

    /// The index of the first line that the viewport shows.
    pub closed spec fn scroll(&self) -> int {
        self.scroll_offset as int
    }

    /// The text state is well-formed, and the line offset is the number of
    /// lines that the buffer has gained over the old text.
    pub open spec fn wf(&self) -> bool {
        &&& self@.wf()
        &&& self.snapshot().wf()
        &&& self@.line_offset == self@.lines.len() - self.snapshot().old_lines().len()
    }

    /// A buffer that holds the old text of `snapshot`, with the cursor and the
    /// scroll offset at the top.
    pub fn new(snapshot: DiffSnapshot) -> (r: PlaybackBuffer)
        ensures
            r.wf(),
            r.snapshot() == snapshot,
            r@ == BufferState::initial(snapshot.old_lines()),
            r.scroll() == 0,
    {
        snapshot.check();
        let mut lines: Vec<Vec<char>> = Vec::new();
        let n = snapshot.old_line_count();
        let mut i: usize = 0;
        while i < n
            invariant
                i <= n,
                n == snapshot.old_lines().len(),
                rows(lines@) == snapshot.old_lines().take(i as int),
            decreases n - i,
        {
            let ghost before = rows(lines@);
            lines.push(copy_line(snapshot.old_line(i)));
            assert(rows(lines@) == before.push(snapshot.old_lines()[i as int]));
            i += 1;
        }
        assert(snapshot.old_lines().take(n as int) == snapshot.old_lines());
        PlaybackBuffer { lines, cursor_line: 0, cursor_col: 0, scroll_offset: 0, line_offset: 0, snapshot }
    }

    /// A buffer that holds the new text of `snapshot` at once, with the
    /// cursor below its last line: the state in which a change is shown that
    /// cannot be animated.
    pub fn revealed(snapshot: DiffSnapshot) -> (r: PlaybackBuffer)
        ensures
            r.wf(),
            r.snapshot() == snapshot,
            r@ == (BufferState {
                lines: snapshot.new_lines(),
                cursor_line: snapshot.new_lines().len() as int,
                cursor_col: 0,
                line_offset: snapshot.new_lines().len() - snapshot.old_lines().len(),
            }),
            r.scroll() == 0,
    {
        snapshot.check();
        let mut lines: Vec<Vec<char>> = Vec::new();
        let n = snapshot.new_line_count();
        let mut i: usize = 0;
        while i < n
            invariant
                i <= n,
                n == snapshot.new_lines().len(),
                rows(lines@) == snapshot.new_lines().take(i as int),
            decreases n - i,
        {
            let ghost before = rows(lines@);
            lines.push(copy_line(snapshot.new_line(i)));
            assert(rows(lines@) == before.push(snapshot.new_lines()[i as int]));
            i += 1;
        }
        assert(snapshot.new_lines().take(n as int) == snapshot.new_lines());
        let line_offset: isize = (n as isize) - (snapshot.old_line_count() as isize);
        PlaybackBuffer { lines, cursor_line: n, cursor_col: 0, scroll_offset: 0, line_offset, snapshot }
    }

    /// The number of lines of the text.
    pub fn line_count(&self) -> (n: usize)
        ensures
            n == self@.lines.len(),
    {
        self.lines.len()
    }

    /// Line `i` of the text.
    pub fn line(&self, i: usize) -> (r: &Vec<char>)
        requires
            i < self@.lines.len(),
        ensures
            r@ == self@.lines[i as int],
    {
        &self.lines[i]
    }

    /// The lines of the text as strings.
    pub fn text_lines(&self) -> (r: Vec<String>)
        ensures
            texts(r@) == self@.lines,
    {
        strings_of(&self.lines)
    }

    /// The line that the cursor is on: the number of new lines that stand complete.
    pub fn cursor_line(&self) -> (n: usize)
        ensures
            n == self@.cursor_line,
    {
        self.cursor_line
    }

    /// The column of the cursor: the number of characters typed of the line under it.
    pub fn cursor_col(&self) -> (n: usize)
        ensures
            n == self@.cursor_col,
    {
        self.cursor_col
    }

    /// The index of the first line that the viewport shows.
    pub fn scroll_offset(&self) -> (n: usize)
        ensures
            n == self.scroll(),
    {
        self.scroll_offset
    }

    /// The number of lines that the text has gained over the old text: a line
    /// `l` below the cursor holds the old line `l - line_offset`.
    pub fn line_offset(&self) -> (n: isize)
        ensures
            n == self@.line_offset,
    {
        self.line_offset
    }

    /// The snapshot that the text is morphing through.
    pub fn diff(&self) -> (r: &DiffSnapshot)
        ensures
            *r == self.snapshot(),
    {
        &self.snapshot
    }

    /// Moves the scroll offset so that the cursor line is inside a window of
    /// `viewport_height` lines.
    pub fn scroll_to_cursor(&mut self, viewport_height: usize)
        requires
            old(self)@.cursor_line < usize::MAX,
        ensures
            final(self)@ == old(self)@,
            final(self).snapshot() == old(self).snapshot(),
            final(self).scroll() == scrolled(
                old(self)@.cursor_line,
                old(self).scroll(),
                viewport_height as int,
            ),
    {
        self.scroll_offset = update_scroll(self.cursor_line, self.scroll_offset, viewport_height);
    }

    /// Applies one step to the text.
    pub fn apply_step(&mut self, step: EditStep)
        requires
            old(self).wf(),
            isize::MIN <= old(self)@.step(step).line_offset <= isize::MAX,
        ensures
            final(self).wf(),
            final(self)@ == old(self)@.step(step),
            final(self).snapshot() == old(self).snapshot(),
            final(self).scroll() == old(self).scroll(),
    {
        proof {
            lemma_step_wf(self@, step);
        }
        let ghost before = self@;
        match step {
            EditStep::SkipContextLine => {
                if self.cursor_line < self.lines.len() {
                    self.cursor_line = self.cursor_line + 1;
                    self.cursor_col = 0;
                }
            },
            EditStep::DeleteLine => {
                if self.cursor_line < self.lines.len() {
                    self.lines.remove(self.cursor_line);
                    self.cursor_col = 0;
                    self.line_offset = self.line_offset - 1;
                    assert(rows(self.lines@) == before.lines.remove(before.cursor_line));
                }
            },
            EditStep::TypeChar(c) => {
                if self.cursor_col == 0 {
                    self.lines.insert(self.cursor_line, Vec::new());
                    self.line_offset = self.line_offset + 1;
                    assert(rows(self.lines@) == before.lines.insert(
                        before.cursor_line,
                        Seq::empty(),
                    ));
                }
                assert(self@ == before.open_line());
                if c == '\n' {
                    self.cursor_line = self.cursor_line + 1;
                    self.cursor_col = 0;
                } else {
                    let ghost opened = self@;
                    self.lines[self.cursor_line].insert(self.cursor_col, c);
                    assert(rows(self.lines@) == opened.lines.update(
                        opened.cursor_line,
                        opened.lines[opened.cursor_line].insert(opened.cursor_col, c),
                    ));
                    let len = self.lines[self.cursor_line].len();
                    assert(self.cursor_col < len);
                    self.cursor_col = self.cursor_col + 1;
                }
            },
        }
    }
}

} // verus!
