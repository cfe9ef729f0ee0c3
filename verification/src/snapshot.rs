//! The frozen old/new pair of one file change.

use vstd::prelude::*;
use crate::syntax::HighlightSpan;
use crate::text::{is_line_table, line_offsets_of, line_start, lines_of, rows, split_lines};

verus! {

/// The old and the new text of one file change, each with its lines, its table
/// of line-start byte offsets and its highlight spans. Nothing in it changes
/// once it is built.
#[derive(Debug)]
pub struct DiffSnapshot {
    old_text: String,
    new_text: String,
    old_lines: Vec<Vec<char>>,
    new_lines: Vec<Vec<char>>,
    old_line_offsets: Vec<usize>,
    new_line_offsets: Vec<usize>,
    old_highlights: Vec<HighlightSpan>,
    new_highlights: Vec<HighlightSpan>,
}

/// Whether the line tables of both texts fit in `usize` and the two line
/// counts together fit in `isize`.
pub open spec fn snapshot_fits(old_text: Seq<char>, new_text: Seq<char>) -> bool {
    let old_lines = split_lines(old_text);
    let new_lines = split_lines(new_text);
    &&& line_start(old_lines, old_lines.len() as int) <= usize::MAX
    &&& line_start(new_lines, new_lines.len() as int) <= usize::MAX
    &&& old_lines.len() + new_lines.len() <= isize::MAX
}

impl DiffSnapshot {
    /// The old text.
    pub closed spec fn old_text(&self) -> Seq<char> {
        self.old_text@
    }

    /// The new text.
    pub closed spec fn new_text(&self) -> Seq<char> {
        self.new_text@
    }

    /// The lines of the old text.
    pub closed spec fn old_lines(&self) -> Seq<Seq<char>> {
        rows(self.old_lines@)
    }

    /// The lines of the new text.
    pub closed spec fn new_lines(&self) -> Seq<Seq<char>> {
        rows(self.new_lines@)
    }

    /// The byte offsets at which the lines of the old text start.
    pub closed spec fn old_line_offsets(&self) -> Seq<usize> {
        self.old_line_offsets@
    }

    /// The byte offsets at which the lines of the new text start.
    pub closed spec fn new_line_offsets(&self) -> Seq<usize> {
        self.new_line_offsets@
    }

    /// The highlight spans of the old text.
    pub closed spec fn old_highlights(&self) -> Seq<HighlightSpan> {
        self.old_highlights@
    }

    /// The highlight spans of the new text.
    pub closed spec fn new_highlights(&self) -> Seq<HighlightSpan> {
        self.new_highlights@
    }

    /// The lines and tables are those of the two texts.
    pub open spec fn wf(&self) -> bool {
        &&& self.old_lines() == split_lines(self.old_text())
        &&& self.new_lines() == split_lines(self.new_text())
        &&& is_line_table(self.old_line_offsets(), self.old_lines())
        &&& is_line_table(self.new_line_offsets(), self.new_lines())
        &&& self.old_lines().len() + self.new_lines().len() <= isize::MAX
    }

    #[verifier::type_invariant]
    spec fn inv(&self) -> bool {
        self.wf()
    }

    /// The snapshot of two empty texts.
    pub fn empty() -> (r: DiffSnapshot)
        ensures
            r.wf(),
            r.old_text() == Seq::<char>::empty(),
            r.new_text() == Seq::<char>::empty(),
            r.old_lines() == Seq::<Seq<char>>::empty(),
            r.new_lines() == Seq::<Seq<char>>::empty(),
            r.old_highlights() == Seq::<HighlightSpan>::empty(),
            r.new_highlights() == Seq::<HighlightSpan>::empty(),
    {
        let old_lines: Vec<Vec<char>> = Vec::new();
        let new_lines: Vec<Vec<char>> = Vec::new();
        assert(rows(old_lines@) == Seq::<Seq<char>>::empty());
        assert(rows(new_lines@) == Seq::<Seq<char>>::empty());
        DiffSnapshot {
            old_text: String::new(),
            new_text: String::new(),
            old_lines,
            new_lines,
            old_line_offsets: Vec::new(),
            new_line_offsets: Vec::new(),
            old_highlights: Vec::new(),
            new_highlights: Vec::new(),
        }
    }

    /// Checks nothing at run time: every snapshot is well-formed.
    pub fn check(&self)
        ensures
            self.wf(),
    {
        proof {
            use_type_invariant(self);
        }
    }

    /// Freezes a pair of texts with their highlight spans. `None` when the
    /// texts are too large for their offsets to be held.
    pub fn new(
        old_text: &str,
        new_text: &str,
        old_highlights: Vec<HighlightSpan>,
        new_highlights: Vec<HighlightSpan>,
    ) -> (r: Option<DiffSnapshot>)
        ensures
            r is Some <==> snapshot_fits(old_text@, new_text@),
            r matches Some(s) ==> {
                &&& s.wf()
                &&& s.old_text() == old_text@
                &&& s.new_text() == new_text@
                &&& s.old_highlights() == old_highlights@
                &&& s.new_highlights() == new_highlights@
            },
    {
        let old_lines = lines_of(old_text);
        let new_lines = lines_of(new_text);
        let old_line_offsets = match line_offsets_of(&old_lines) {
            Some(t) => t,
            None => {
                return None;
            },
        };
        let new_line_offsets = match line_offsets_of(&new_lines) {
            Some(t) => t,
            None => {
                return None;
            },
        };
        let limit: usize = isize::MAX as usize;
        if new_lines.len() > limit || old_lines.len() > limit - new_lines.len() {
            return None;
        }
        Some(
            DiffSnapshot {
                old_text: old_text.to_owned(),
                new_text: new_text.to_owned(),
                old_lines,
                new_lines,
                old_line_offsets,
                new_line_offsets,
                old_highlights,
                new_highlights,
            },
        )
    }

    /// The number of lines of the old text.
    pub fn old_line_count(&self) -> (n: usize)
        ensures
            n == self.old_lines().len(),
    {
        self.old_lines.len()
    }

    /// The number of lines of the new text.
    pub fn new_line_count(&self) -> (n: usize)
        ensures
            n == self.new_lines().len(),
    {
        self.new_lines.len()
    }

    /// The lines of the old text.
    pub fn old_rows(&self) -> (r: &Vec<Vec<char>>)
        ensures
            rows(r@) == self.old_lines(),
    {
        &self.old_lines
    }

    /// The lines of the new text.
    pub fn new_rows(&self) -> (r: &Vec<Vec<char>>)
        ensures
            rows(r@) == self.new_lines(),
    {
        &self.new_lines
    }

    /// Line `i` of the old text.
    pub fn old_line(&self, i: usize) -> (r: &Vec<char>)
        requires
            i < self.old_lines().len(),
        ensures
            r@ == self.old_lines()[i as int],
    {
        &self.old_lines[i]
    }

    /// Line `i` of the new text.
    pub fn new_line(&self, i: usize) -> (r: &Vec<char>)
        requires
            i < self.new_lines().len(),
        ensures
            r@ == self.new_lines()[i as int],
    {
        &self.new_lines[i]
    }

    /// The byte offsets at which the lines of the old text start.
    pub fn old_offsets(&self) -> (r: &Vec<usize>)
        ensures
            r@ == self.old_line_offsets(),
    {
        &self.old_line_offsets
    }

    /// The byte offsets at which the lines of the new text start.
    pub fn new_offsets(&self) -> (r: &Vec<usize>)
        ensures
            r@ == self.new_line_offsets(),
    {
        &self.new_line_offsets
    }

    /// The highlight spans of the old text.
    pub fn old_spans(&self) -> (r: &Vec<HighlightSpan>)
        ensures
            r@ == self.old_highlights(),
    {
        &self.old_highlights
    }

    /// The highlight spans of the new text.
    pub fn new_spans(&self) -> (r: &Vec<HighlightSpan>)
        ensures
            r@ == self.new_highlights(),
    {
        &self.new_highlights
    }
}

} // verus!
