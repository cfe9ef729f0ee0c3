//! The terminal transcript: the command lines and output lines shown beside
//! the editor, with the command that is still being typed.

use vstd::prelude::*;
use crate::text::{chars_of, rows, strings_of, texts};

verus! {

/// The transcript as contracts see it.
pub struct TranscriptState {
    /// The lines shown so far.
    pub lines: Seq<Seq<char>>,
    /// The characters that are still to be typed at the end of the last line.
    pub pending: Seq<char>,
}

impl TranscriptState {
    /// Characters wait only where there is a line to type them on.
    pub open spec fn wf(self) -> bool {
        self.pending.len() > 0 ==> self.lines.len() > 0
    }

    /// The lines once everything that waits has been typed.
    pub open spec fn settled(self) -> Seq<Seq<char>> {
        if self.pending.len() == 0 {
            self.lines
        } else {
            self.lines.drop_last().push(self.lines.last() + self.pending)
        }
    }

    /// The transcript with every waiting character typed.
    pub open spec fn flushed(self) -> TranscriptState {
        TranscriptState { lines: self.settled(), pending: Seq::empty() }
    }

    /// The transcript after the next waiting character has been typed.
    pub open spec fn typed(self) -> TranscriptState {
        if self.pending.len() == 0 {
            self
        } else {
            TranscriptState {
                lines: self.lines.drop_last().push(self.lines.last().push(self.pending[0])),
                pending: self.pending.skip(1),
            }
        }
    }
}

/// The mark that opens a command line.
pub open spec fn prompt() -> Seq<char> {
    seq!['~', ' ']
}

/// Typing a character changes nothing of what the transcript settles to.
pub proof fn lemma_typing_keeps_settled(t: TranscriptState)
    requires
        t.wf(),
    ensures
        t.typed().wf(),
        t.typed().settled() == t.settled(),
{
    if t.pending.len() > 0 {
        let last = t.lines.last();
        let c = t.pending[0];
        let after = t.typed();
        assert(after.lines.drop_last() == t.lines.drop_last());
        assert(last.push(c) + t.pending.skip(1) == last + t.pending);
        if after.pending.len() == 0 {
            assert(t.pending.skip(1) == Seq::<char>::empty());
            assert(last.push(c) + t.pending.skip(1) == last.push(c));
        }
    }
}

/// The terminal transcript.
#[derive(Debug)]
pub struct Transcript {
    lines: Vec<Vec<char>>,
    pending: Vec<char>,
}

impl View for Transcript {
    type V = TranscriptState;

    closed spec fn view(&self) -> TranscriptState {
        TranscriptState { lines: rows(self.lines@), pending: self.pending@ }
    }
}

impl Transcript {
    /// The empty transcript.
    pub fn new() -> (r: Transcript)
        ensures
            r@.wf(),
            r@.lines == Seq::<Seq<char>>::empty(),
            r@.pending == Seq::<char>::empty(),
    {
        let r = Transcript { lines: Vec::new(), pending: Vec::new() };
        assert(r@.lines == Seq::<Seq<char>>::empty());
        r
    }

    /// Types at once every character that waits.
    pub fn flush(&mut self)
        requires
            old(self)@.wf(),
        ensures
            final(self)@ == old(self)@.flushed(),
            final(self)@.wf(),
    {
        let ghost before = self@;
        if self.pending.len() > 0 {
            let last = self.lines.len() - 1;
            self.lines[last].append(&mut self.pending);
            assert(rows(self.lines@) == before.settled());
        }
        assert(self.pending@ == Seq::<char>::empty());
    }

    /// Opens a command line with the prompt. If `typed`, the characters of
    /// `command` wait to be typed one per tick; otherwise they stand on the
    /// line at once. A command that was still being typed is finished first.
    pub fn begin_command(&mut self, command: &str, typed: bool)
        requires
            old(self)@.wf(),
        ensures
            final(self)@.wf(),
            final(self)@ == (if typed {
                TranscriptState { lines: old(self)@.settled().push(prompt()), pending: command@ }
            } else {
                TranscriptState {
                    lines: old(self)@.settled().push(prompt() + command@),
                    pending: Seq::empty(),
                }
            }),
    {
        self.flush();
        let ghost settled = self@.lines;
        let mut line: Vec<char> = Vec::new();
        line.push('~');
        line.push(' ');
        assert(line@ == prompt());
        let mut text = chars_of(command);
        if typed {
            self.pending = text;
        } else {
            line.append(&mut text);
        }
        let ghost shown = line@;
        self.lines.push(line);
        assert(rows(self.lines@) == settled.push(shown));
    }

    /// Appends a line of output. A command that was still being typed is
    /// finished first.
    pub fn push_output(&mut self, line: &str)
        requires
            old(self)@.wf(),
        ensures
            final(self)@.wf(),
            final(self)@ == (TranscriptState {
                lines: old(self)@.settled().push(line@),
                pending: Seq::empty(),
            }),
    {
        self.flush();
        let ghost settled = self@.lines;
        self.lines.push(chars_of(line));
        assert(rows(self.lines@) == settled.push(line@));
    }

    /// Types the next waiting character, if any. Returns whether one was typed.
    pub fn type_next(&mut self) -> (r: bool)
        requires
            old(self)@.wf(),
        ensures
            final(self)@.wf(),
            final(self)@ == old(self)@.typed(),
            r == (old(self)@.pending.len() > 0),
    {
        let ghost before = self@;
        proof {
            lemma_typing_keeps_settled(before);
        }
        if self.pending.len() == 0 {
            return false;
        }
        let c = self.pending.remove(0);
        let last = self.lines.len() - 1;
        self.lines[last].push(c);
        assert(rows(self.lines@) == before.typed().lines);
        assert(self.pending@ == before.pending.skip(1));
        true
    }

    /// The number of lines shown so far.
    pub fn line_count(&self) -> (n: usize)
        ensures
            n == self@.lines.len(),
    {
        self.lines.len()
    }

    /// Line `i` of the transcript as shown now.
    pub fn line(&self, i: usize) -> (r: &Vec<char>)
        requires
            i < self@.lines.len(),
        ensures
            r@ == self@.lines[i as int],
    {
        &self.lines[i]
    }

    /// The lines of the transcript as strings, as shown now.
    pub fn text_lines(&self) -> (r: Vec<String>)
        ensures
            texts(r@) == self@.lines,
    {
        strings_of(&self.lines)
    }

    /// The number of characters that wait to be typed.
    pub fn pending_count(&self) -> (n: usize)
        ensures
            n == self@.pending.len(),
    {
        self.pending.len()
    }
}

} // verus!
