//! The line diff of one file: tagged lines grouped into hunks.

use vstd::prelude::*;

verus! {

/// How a line of a hunk relates the old text to the new one.
#[derive(Clone, Copy, Debug, PartialEq, Eq, Structural)]
pub enum LineTag {
    /// The line stands in both texts.
    Context,
    /// The line stands in the new text only.
    Added,
    /// The line stands in the old text only.
    Removed,
}

/// What became of a file in a commit.
#[derive(Clone, Copy, Debug, PartialEq, Eq, Structural)]
pub enum FileStatus {
    Added,
    Deleted,
    Modified,
    Renamed,
}

/// One line of a hunk. The tag is fixed when the line is made.
#[derive(Debug)]
pub struct DiffLine {
    content: String,
    tag: LineTag,
}

/// A tagged line as contracts see it.
pub struct LineView {
    pub content: Seq<char>,
    pub tag: LineTag,
}

impl View for DiffLine {
    type V = LineView;

    closed spec fn view(&self) -> LineView {
        LineView { content: self.content@, tag: self.tag }
    }
}

impl DiffLine {
    /// A line with the given content and tag.
    pub fn new(content: String, tag: LineTag) -> (r: DiffLine)
        ensures
            r@ == (LineView { content: content@, tag }),
    {
        DiffLine { content, tag }
    }

    /// A line that stands in both texts.
    pub fn context(content: &str) -> (r: DiffLine)
        ensures
            r@ == (LineView { content: content@, tag: LineTag::Context }),
    {
        DiffLine { content: content.to_owned(), tag: LineTag::Context }
    }

    /// A line that the change inserts.
    pub fn added(content: &str) -> (r: DiffLine)
        ensures
            r@ == (LineView { content: content@, tag: LineTag::Added }),
    {
        DiffLine { content: content.to_owned(), tag: LineTag::Added }
    }

    /// A line that the change deletes.
    pub fn removed(content: &str) -> (r: DiffLine)
        ensures
            r@ == (LineView { content: content@, tag: LineTag::Removed }),
    {
        DiffLine { content: content.to_owned(), tag: LineTag::Removed }
    }

    /// The text of the line, without its line feed.
    pub fn content(&self) -> (r: &String)
        ensures
            r@ == self@.content,
    {
        &self.content
    }

    /// The tag of the line.
    pub fn tag(&self) -> (r: LineTag)
        ensures
            r == self@.tag,
    {
        self.tag
    }
}

/// A contiguous region of the diff: its lines in order.
#[derive(Debug)]
pub struct Hunk {
    pub lines: Vec<DiffLine>,
}

impl View for Hunk {
    type V = Seq<LineView>;

    open spec fn view(&self) -> Seq<LineView> {
        Seq::new(self.lines@.len(), |i: int| self.lines@[i]@)
    }
}

impl Hunk {
    /// A hunk of the given lines.
    pub fn new(lines: Vec<DiffLine>) -> (r: Hunk)
        ensures
            r.lines == lines,
    {
        Hunk { lines }
    }
}

/// The diff of one file in one commit.
#[derive(Debug)]
pub struct FileChange {
    pub path: String,
    pub status: FileStatus,
    pub hunks: Vec<Hunk>,
}

impl View for FileChange {
    type V = Seq<Seq<LineView>>;

    /// The hunks of the change, each as its lines.
    open spec fn view(&self) -> Seq<Seq<LineView>> {
        Seq::new(self.hunks@.len(), |i: int| self.hunks@[i]@)
    }
}

impl FileChange {
    /// The change of the file at `path`.
    pub fn new(path: String, status: FileStatus, hunks: Vec<Hunk>) -> (r: FileChange)
        ensures
            r.path == path,
            r.status == status,
            r.hunks == hunks,
    {
        FileChange { path, status, hunks }
    }
}

/// The contents of the lines of `lines` whose tag is not `skipped`, in order.
pub open spec fn side(lines: Seq<LineView>, skipped: LineTag) -> Seq<Seq<char>>
    decreases lines.len(),
{
    if lines.len() == 0 {
        Seq::empty()
    } else if lines.last().tag == skipped {
        side(lines.drop_last(), skipped)
    } else {
        side(lines.drop_last(), skipped).push(lines.last().content)
    }
}

/// The lines of `lines` that stand in the old text, in order.
pub open spec fn old_side(lines: Seq<LineView>) -> Seq<Seq<char>> {
    side(lines, LineTag::Added)
}

/// The lines of `lines` that stand in the new text, in order.
pub open spec fn new_side(lines: Seq<LineView>) -> Seq<Seq<char>> {
    side(lines, LineTag::Removed)
}

/// All lines of the first `n` hunks, in order.
pub open spec fn lines_through(hunks: Seq<Seq<LineView>>, n: int) -> Seq<LineView>
    decreases n,
{
    if n <= 0 {
        Seq::empty()
    } else {
        lines_through(hunks, n - 1) + hunks[n - 1]
    }
}

/// All lines of a change, hunk after hunk.
pub open spec fn all_lines(hunks: Seq<Seq<LineView>>) -> Seq<LineView> {
    lines_through(hunks, hunks.len() as int)
}

/// The side of a concatenation is the concatenation of the sides.
pub proof fn lemma_side_concat(a: Seq<LineView>, b: Seq<LineView>, skipped: LineTag)
    ensures
        side(a + b, skipped) == side(a, skipped) + side(b, skipped),
    decreases b.len(),
{
    if b.len() == 0 {
        assert(a + b == a);
        assert(side(a, skipped) + side(b, skipped) == side(a, skipped));
    } else {
        lemma_side_concat(a, b.drop_last(), skipped);
        assert((a + b).drop_last() == a + b.drop_last());
        assert((a + b).last() == b.last());
        if b.last().tag != skipped {
            assert(side(a, skipped) + side(b.drop_last(), skipped).push(b.last().content) == (side(
                a,
                skipped,
            ) + side(b.drop_last(), skipped)).push(b.last().content));
        }
    }
}

/// The side of a sequence that starts with `first`.
pub proof fn lemma_side_first(lines: Seq<LineView>, skipped: LineTag)
    requires
        lines.len() > 0,
    ensures
        side(lines, skipped) == if lines[0].tag == skipped {
            side(lines.skip(1), skipped)
        } else {
            seq![lines[0].content] + side(lines.skip(1), skipped)
        },
{
    let head = seq![lines[0]];
    assert(lines == head + lines.skip(1));
    lemma_side_concat(head, lines.skip(1), skipped);
    assert(head.drop_last() == Seq::<LineView>::empty());
    assert(side(head.drop_last(), skipped) == Seq::<Seq<char>>::empty());
    assert(head.last() == lines[0]);
    assert(side(head, skipped) == if lines[0].tag == skipped {
        Seq::<Seq<char>>::empty()
    } else {
        seq![lines[0].content]
    });
    if lines[0].tag == skipped {
        assert(Seq::<Seq<char>>::empty() + side(lines.skip(1), skipped) == side(
            lines.skip(1),
            skipped,
        ));
    }
}

/// All lines of the hunks from hunk `n` on, in order.
pub open spec fn lines_from(hunks: Seq<Seq<LineView>>, n: int) -> Seq<LineView>
    decreases hunks.len() - n,
{
    if n >= hunks.len() {
        Seq::empty()
    } else {
        hunks[n] + lines_from(hunks, n + 1)
    }
}

/// The lines of a change are those before hunk `n` followed by those from
/// hunk `n` on.
pub proof fn lemma_lines_split(hunks: Seq<Seq<LineView>>, n: int)
    requires
        0 <= n <= hunks.len(),
    ensures
        all_lines(hunks) == lines_through(hunks, n) + lines_from(hunks, n),
    decreases hunks.len() - n,
{
    if n == hunks.len() {
        assert(lines_through(hunks, n) + Seq::<LineView>::empty() == lines_through(hunks, n));
    } else {
        lemma_lines_split(hunks, n + 1);
        assert(lines_through(hunks, n) + (hunks[n] + lines_from(hunks, n + 1)) == (lines_through(
            hunks,
            n,
        ) + hunks[n]) + lines_from(hunks, n + 1));
    }
}

} // verus!
