//! The file tree pane: the files that a commit changed, grouped by their
//! directories.

use vstd::prelude::*;
use crate::commit::CommitMetadata;
use crate::diff::{FileChange, FileStatus, LineTag, LineView};
use crate::style::{colored, line_views, plain, span_views, SpanView, StyledSpan};
use crate::text::{
    byte_len, chars_eq, chars_of, copy_line, decimal, decimal_of, push_chars, push_spaces, rows,
    spaces, string_of, wide_byte_len,
};
use crate::theme::{Color, Theme};

verus! {

/// The file tree pane.
pub struct FileTreePane;

/// The number of lines in the hunks `hunks` that carry the tag `tag`.
pub open spec fn tagged_lines(hunks: Seq<Seq<LineView>>, tag: LineTag) -> nat
    decreases hunks.len(),
{
    if hunks.len() == 0 {
        0
    } else {
        tagged_lines(hunks.drop_last(), tag) + tagged_in(hunks.last(), tag)
    }
}

/// The number of lines of `lines` that carry the tag `tag`.
pub open spec fn tagged_in(lines: Seq<LineView>, tag: LineTag) -> nat
    decreases lines.len(),
{
    if lines.len() == 0 {
        0
    } else if lines.last().tag == tag {
        tagged_in(lines.drop_last(), tag) + 1
    } else {
        tagged_in(lines.drop_last(), tag)
    }
}

/// The index behind the last slash of a path, or 0 if the path holds none.
pub open spec fn name_start(path: Seq<char>) -> int
    decreases path.len(),
{
    if path.len() == 0 {
        0
    } else if path.last() == '/' {
        path.len() as int
    } else {
        name_start(path.drop_last())
    }
}

/// The directory of a path: what stands before its last slash, and nothing
/// for a path without a slash.
pub open spec fn directory_of(path: Seq<char>) -> Seq<char> {
    if name_start(path) == 0 {
        Seq::empty()
    } else {
        path.take(name_start(path) - 1)
    }
}

/// The name of the file of a path: what stands behind its last slash.
pub open spec fn name_of(path: Seq<char>) -> Seq<char> {
    path.skip(name_start(path))
}

/// What the pane shows of one changed file.
pub struct EntryView {
    /// The index of the file among the changes of the commit.
    pub index: int,
    pub directory: Seq<char>,
    pub name: Seq<char>,
    pub status: FileStatus,
    /// The number of added lines.
    pub additions: nat,
    /// The number of removed lines.
    pub deletions: nat,
}

/// What the pane shows of the change `change`, the `index`th of its commit.
pub open spec fn entry_of(change: FileChange, index: int) -> EntryView {
    EntryView {
        index,
        directory: directory_of(change.path@),
        name: name_of(change.path@),
        status: change.status,
        additions: tagged_lines(change@, LineTag::Added),
        deletions: tagged_lines(change@, LineTag::Removed),
    }
}

/// What the pane shows of the changes `changes`, in their order.
pub open spec fn entries_of(changes: Seq<FileChange>) -> Seq<EntryView> {
    Seq::new(changes.len(), |i: int| entry_of(changes[i], i))
}

/// Whether `a` comes before `b` in the order of strings: at the first place
/// where they differ, `a` ends or holds the lesser character.
pub open spec fn comes_before(a: Seq<char>, b: Seq<char>) -> bool
    decreases a.len(),
{
    if b.len() == 0 {
        false
    } else if a.len() == 0 {
        true
    } else if a[0] != b[0] {
        a[0] < b[0]
    } else {
        comes_before(a.skip(1), b.skip(1))
    }
}

/// The number of directories at the head of `dirs` that come before `d`.
pub open spec fn directory_position(dirs: Seq<Seq<char>>, d: Seq<char>) -> int
    decreases dirs.len(),
{
    if dirs.len() == 0 || !comes_before(dirs[0], d) {
        0
    } else {
        1 + directory_position(dirs.skip(1), d)
    }
}

/// The directories `dirs` with `d` among them, at its place in the order.
pub open spec fn with_directory(dirs: Seq<Seq<char>>, d: Seq<char>) -> Seq<Seq<char>> {
    let p = directory_position(dirs, d);
    if p < dirs.len() && dirs[p] == d {
        dirs
    } else {
        dirs.insert(p, d)
    }
}

/// The directories of the entries, each once, in the order of strings.
pub open spec fn directories(entries: Seq<EntryView>) -> Seq<Seq<char>>
    decreases entries.len(),
{
    if entries.len() == 0 {
        Seq::empty()
    } else {
        with_directory(directories(entries.drop_last()), entries.last().directory)
    }
}

/// Whether the directories come in the strict order of strings, so that
/// none of them comes twice.
pub open spec fn ascending(dirs: Seq<Seq<char>>) -> bool {
    forall|i: int, j: int| 0 <= i < j < dirs.len() ==> comes_before(dirs[i], dirs[j])
}

/// Of two different strings one comes before the other.
pub proof fn lemma_order_total(a: Seq<char>, b: Seq<char>)
    ensures
        a == b || comes_before(a, b) || comes_before(b, a),
        !(comes_before(a, b) && comes_before(b, a)),
        !comes_before(a, a),
    decreases a.len(),
{
    if a.len() > 0 {
        lemma_order_total(a.skip(1), a.skip(1));
    }
    if a.len() == 0 || b.len() == 0 {
        if a.len() == 0 && b.len() == 0 {
            assert(a == b);
        }
    } else if a[0] == b[0] {
        lemma_order_total(a.skip(1), b.skip(1));
        if a.skip(1) == b.skip(1) {
            assert(a == seq![a[0]] + a.skip(1));
            assert(b == seq![b[0]] + b.skip(1));
        }
    }
}

/// What comes before a string comes before all that the string comes before.
pub proof fn lemma_order_transitive(a: Seq<char>, b: Seq<char>, c: Seq<char>)
    requires
        comes_before(a, b),
        comes_before(b, c),
    ensures
        comes_before(a, c),
    decreases a.len(),
{
    if a.len() > 0 && b.len() > 0 && c.len() > 0 && a[0] == b[0] && b[0] == c[0] {
        lemma_order_transitive(a.skip(1), b.skip(1), c.skip(1));
    }
}

/// The directories before the position of `d` come before `d`.
pub proof fn lemma_directory_position(dirs: Seq<Seq<char>>, d: Seq<char>)
    ensures
        0 <= directory_position(dirs, d) <= dirs.len(),
        forall|i: int| 0 <= i < directory_position(dirs, d) ==> comes_before(#[trigger] dirs[i], d),
        directory_position(dirs, d) < dirs.len() ==> !comes_before(
            dirs[directory_position(dirs, d)],
            d,
        ),
    decreases dirs.len(),
{
    if dirs.len() == 0 || !comes_before(dirs[0], d) {
    } else {
        lemma_directory_position(dirs.skip(1), d);
        let p = directory_position(dirs.skip(1), d);
        assert forall|i: int| 0 <= i < p + 1 implies comes_before(#[trigger] dirs[i], d) by {
            if i > 0 {
                assert(dirs.skip(1)[i - 1] == dirs[i]);
            }
        }
        if p + 1 < dirs.len() {
            assert(dirs.skip(1)[p] == dirs[p + 1]);
        }
    }
}

/// A directory goes into an ascending list at its place: the list stays
/// ascending, and holds the directory and what it held.
pub proof fn lemma_with_directory(dirs: Seq<Seq<char>>, d: Seq<char>)
    requires
        ascending(dirs),
    ensures
        ascending(with_directory(dirs, d)),
        with_directory(dirs, d).contains(d),
        forall|e: Seq<char>| dirs.contains(e) ==> with_directory(dirs, d).contains(e),
        forall|e: Seq<char>| with_directory(dirs, d).contains(e) ==> e == d || dirs.contains(e),
{
    lemma_directory_position(dirs, d);
    let p = directory_position(dirs, d);
    let r = with_directory(dirs, d);
    if p < dirs.len() && dirs[p] == d {
        assert(r[p] == d);
    } else {
        assert(r == dirs.insert(p, d));
        assert(r[p] == d);
        assert forall|i: int, j: int| 0 <= i < j < r.len() implies comes_before(r[i], r[j]) by {
            if j == p {
                assert(r[i] == dirs[i]);
            } else if i == p {
                assert(r[j] == dirs[j - 1]);
                lemma_order_total(dirs[p], d);
                if j - 1 > p {
                    lemma_order_transitive(d, dirs[p], dirs[j - 1]);
                }
            } else {
                let i0 = if i < p {
                    i
                } else {
                    i - 1
                };
                let j0 = if j < p {
                    j
                } else {
                    j - 1
                };
                assert(r[i] == dirs[i0] && r[j] == dirs[j0]);
            }
        }
        assert forall|e: Seq<char>| dirs.contains(e) implies r.contains(e) by {
            let k = choose|k: int| 0 <= k < dirs.len() && dirs[k] == e;
            if k < p {
                assert(r[k] == e);
            } else {
                assert(r[k + 1] == e);
            }
        }
        assert forall|e: Seq<char>| r.contains(e) implies e == d || dirs.contains(e) by {
            let k = choose|k: int| 0 <= k < r.len() && r[k] == e;
            if k < p {
                assert(dirs[k] == e);
            } else if k > p {
                assert(dirs[k - 1] == e);
            }
        }
    }
}

/// **The directories of a tree.** They come in the strict order of
/// strings, none of them twice, and they are the directories of the
/// entries, all of them and no others.
pub proof fn law_directories(entries: Seq<EntryView>)
    ensures
        ascending(directories(entries)),
        forall|i: int|
            0 <= i < entries.len() ==> directories(entries).contains((#[trigger] entries[i]).directory),
        forall|d: Seq<char>|
            directories(entries).contains(d) ==> exists|i: int|
                0 <= i < entries.len() && (#[trigger] entries[i]).directory == d,
    decreases entries.len(),
{
    if entries.len() > 0 {
        let front = entries.drop_last();
        let last = entries.last();
        law_directories(front);
        lemma_with_directory(directories(front), last.directory);
        let dirs = directories(entries);
        assert forall|i: int| 0 <= i < entries.len() implies dirs.contains(
            (#[trigger] entries[i]).directory,
        ) by {
            if i < front.len() {
                assert(front[i] == entries[i]);
            }
        }
        assert forall|d: Seq<char>| dirs.contains(d) implies exists|i: int|
            0 <= i < entries.len() && (#[trigger] entries[i]).directory == d by {
            if d == last.directory {
                assert(entries[entries.len() - 1].directory == d);
            } else {
                assert(directories(front).contains(d));
                let i = choose|i: int| 0 <= i < front.len() && (#[trigger] front[i]).directory == d;
                assert(entries[i] == front[i]);
            }
        }
    }
}

/// The mark of a status.
pub open spec fn status_mark(status: FileStatus) -> char {
    match status {
        FileStatus::Added => '+',
        FileStatus::Deleted => '-',
        FileStatus::Modified => '~',
        FileStatus::Renamed => '>',
    }
}

/// The color of a status.
pub open spec fn status_color(status: FileStatus, theme: Theme) -> Color {
    match status {
        FileStatus::Added => theme.file_tree_added,
        FileStatus::Deleted => theme.file_tree_deleted,
        FileStatus::Modified => theme.file_tree_modified,
        FileStatus::Renamed => theme.file_tree_renamed,
    }
}

/// The count `n` behind a space and the sign `sign`.
pub open spec fn signed_count(sign: char, n: nat) -> Seq<char> {
    seq![' ', sign] + decimal(n)
}

/// The indent of a file in the directory `directory`.
pub open spec fn indent_of(directory: Seq<char>) -> Seq<char> {
    if directory.len() == 0 {
        Seq::empty()
    } else {
        seq![' ', ' ']
    }
}

/// The number of bytes that the line of an entry takes.
pub open spec fn entry_len(e: EntryView) -> int {
    (indent_of(e.directory).len() + 2 + byte_len(e.name) + signed_count('+', e.additions).len()
        + signed_count('-', e.deletions).len()) as int
}

/// The line of a file: its indent, the mark of its status, its name, and
/// the numbers of its added and removed lines. The file that is being
/// played has its own background, out to the right edge of the pane.
pub open spec fn file_line(e: EntryView, current: int, theme: Theme, width: int) -> Seq<SpanView> {
    let mark = seq![status_mark(e.status), ' '];
    let color = status_color(e.status, theme);
    if e.index == current {
        let bg = Some(theme.file_tree_current_file_bg);
        let line = seq![
            colored(indent_of(e.directory), None, bg, false),
            colored(mark, Some(color), bg, true),
            colored(e.name, Some(theme.file_tree_current_file_fg), bg, true),
            colored(signed_count('+', e.additions), Some(theme.file_tree_stats_added), bg, false),
            colored(signed_count('-', e.deletions), Some(theme.file_tree_stats_deleted), bg, false),
        ];
        if entry_len(e) < width {
            line.push(colored(spaces((width - entry_len(e)) as nat), None, bg, false))
        } else {
            line
        }
    } else {
        seq![
            plain(indent_of(e.directory)),
            colored(mark, Some(color), None, true),
            colored(e.name, Some(theme.file_tree_default), None, false),
            colored(signed_count('+', e.additions), Some(theme.file_tree_stats_added), None, false),
            colored(
                signed_count('-', e.deletions),
                Some(theme.file_tree_stats_deleted),
                None,
                false,
            ),
        ]
    }
}

/// The lines of the files of the directory `d`, in the order of the entries.
pub open spec fn files_in(entries: Seq<EntryView>, d: Seq<char>, current: int, theme: Theme, width: int)
    -> Seq<Seq<SpanView>>
    decreases entries.len(),
{
    if entries.len() == 0 {
        Seq::empty()
    } else {
        let before = files_in(entries.drop_last(), d, current, theme, width);
        if entries.last().directory == d {
            before.push(file_line(entries.last(), current, theme, width))
        } else {
            before
        }
    }
}

/// The line that names a directory.
pub open spec fn directory_line(d: Seq<char>, theme: Theme) -> Seq<SpanView> {
    seq![colored(d.push('/'), Some(theme.file_tree_directory), None, true)]
}

/// The lines of one directory: its name, unless it is the root, and its
/// files.
pub open spec fn directory_block(
    entries: Seq<EntryView>,
    d: Seq<char>,
    current: int,
    theme: Theme,
    width: int,
) -> Seq<Seq<SpanView>> {
    if d.len() == 0 {
        files_in(entries, d, current, theme, width)
    } else {
        seq![directory_line(d, theme)] + files_in(entries, d, current, theme, width)
    }
}

/// The lines of the first `n` of the directories `dirs`.
pub open spec fn blocks_through(
    entries: Seq<EntryView>,
    dirs: Seq<Seq<char>>,
    n: int,
    current: int,
    theme: Theme,
    width: int,
) -> Seq<Seq<SpanView>>
    decreases n,
{
    if n <= 0 {
        Seq::empty()
    } else {
        blocks_through(entries, dirs, n - 1, current, theme, width) + directory_block(
            entries,
            dirs[n - 1],
            current,
            theme,
            width,
        )
    }
}

/// The lines of the tree of the changed files: directory by directory in
/// the order of strings, the files of each directory in the order of the
/// changes.
pub open spec fn tree_lines(changes: Seq<FileChange>, current: int, theme: Theme, width: int) -> Seq<
    Seq<SpanView>,
> {
    let entries = entries_of(changes);
    let dirs = directories(entries);
    blocks_through(entries, dirs, dirs.len() as int, current, theme, width)
}

/// The line that the pane shows while no commit is loaded.
pub open spec fn no_commit_notice() -> Seq<Seq<SpanView>> {
    seq![seq![plain("No commit loaded"@)]]
}

/// What the pane shows of one changed file.
struct Entry {
    index: usize,
    directory: Vec<char>,
    name: Vec<char>,
    status: FileStatus,
    additions: u128,
    deletions: u128,
}

impl View for Entry {
    type V = EntryView;

    closed spec fn view(&self) -> EntryView {
        EntryView {
            index: self.index as int,
            directory: self.directory@,
            name: self.name@,
            status: self.status,
            additions: self.additions as nat,
            deletions: self.deletions as nat,
        }
    }
}

/// The entries of a vector as contracts see them.
closed spec fn entry_views(entries: Seq<Entry>) -> Seq<EntryView> {
    Seq::new(entries.len(), |i: int| entries[i]@)
}

/// The number of lines of a change that carry the tag `tag`.
fn count_tagged(change: &FileChange, tag: LineTag) -> (r: u128)
    ensures
        r == tagged_lines(change@, tag),
{
    let mut total: u128 = 0;
    let mut h: usize = 0;
    assert(change@.take(0) == Seq::<Seq<LineView>>::empty());
    while h < change.hunks.len()
        invariant
            h <= change.hunks.len(),
            total == tagged_lines(change@.take(h as int), tag),
            total <= h * 0x1_0000_0000_0000_0000,
        decreases change.hunks.len() - h,
    {
        let hunk = &change.hunks[h];
        let ghost lines = hunk@;
        let mut found: usize = 0;
        let mut j: usize = 0;
        assert(lines.take(0) == Seq::<LineView>::empty());
        while j < hunk.lines.len()
            invariant
                j <= hunk.lines.len(),
                lines == hunk@,
                found <= j,
                found == tagged_in(lines.take(j as int), tag),
            decreases hunk.lines.len() - j,
        {
            proof {
                assert(lines.take(j + 1).drop_last() == lines.take(j as int));
                assert(lines.take(j + 1).last() == hunk.lines@[j as int]@);
            }
            if hunk.lines[j].tag() == tag {
                found += 1;
            }
            j += 1;
        }
        proof {
            assert(lines.take(hunk.lines.len() as int) == lines);
            assert(change@.take(h + 1).drop_last() == change@.take(h as int));
            assert(change@.take(h + 1).last() == lines);
        }
        assert(total + found <= (h + 1) * 0x1_0000_0000_0000_0000 && (h + 1)
            * 0x1_0000_0000_0000_0000 <= u128::MAX) by (nonlinear_arith)
            requires
                total <= h * 0x1_0000_0000_0000_0000,
                found < 0x1_0000_0000_0000_0000,
                0 <= h < 0xffff_ffff_ffff_ffff,
        ;
        total = total + (found as u128);
        h += 1;
    }
    assert(change@.take(change.hunks.len() as int) == change@);
    total
}

/// Whether `a` comes before `b` in the order of strings.
fn is_before(a: &Vec<char>, b: &Vec<char>) -> (r: bool)
    ensures
        r == comes_before(a@, b@),
{
    let mut i: usize = 0;
    assert(a@.skip(0) == a@ && b@.skip(0) == b@);
    while i < a.len() && i < b.len() && a[i] == b[i]
        invariant
            i <= a.len(),
            i <= b.len(),
            comes_before(a@, b@) == comes_before(a@.skip(i as int), b@.skip(i as int)),
        decreases a.len() - i,
    {
        proof {
            assert(a@.skip(i as int)[0] == a@[i as int]);
            assert(b@.skip(i as int)[0] == b@[i as int]);
            assert(a@.skip(i as int).skip(1) == a@.skip(i + 1));
            assert(b@.skip(i as int).skip(1) == b@.skip(i + 1));
        }
        i += 1;
    }
    proof {
        if i < a.len() {
            assert(a@.skip(i as int)[0] == a@[i as int]);
        }
        if i < b.len() {
            assert(b@.skip(i as int)[0] == b@[i as int]);
        }
    }
    if i >= b.len() {
        false
    } else if i >= a.len() {
        true
    } else {
        a[i] < b[i]
    }
}

/// The directory and the file name of a path.
fn split_path(path: &Vec<char>) -> (r: (Vec<char>, Vec<char>))
    ensures
        r.0@ == directory_of(path@),
        r.1@ == name_of(path@),
{
    let n = path.len();
    let mut start: usize = n;
    assert(path@.take(n as int) == path@);
    while start > 0 && path[start - 1] != '/'
        invariant
            start <= n,
            n == path.len(),
            name_start(path@) == name_start(path@.take(start as int)),
        decreases start,
    {
        proof {
            let head = path@.take(start as int);
            assert(head.drop_last() == path@.take(start - 1));
            assert(head.last() == path@[start - 1]);
        }
        start -= 1;
    }
    proof {
        let head = path@.take(start as int);
        if start > 0 {
            assert(head.last() == path@[start - 1]);
        }
        assert(name_start(path@) == start);
    }
    let mut directory: Vec<char> = Vec::new();
    let mut i: usize = 0;
    while i + 1 < start
        invariant
            i <= start,
            start <= n,
            n == path.len(),
            start > 0 ==> i <= start - 1,
            directory@ == path@.take(i as int),
        decreases start - i,
    {
        directory.push(path[i]);
        i += 1;
    }
    let mut name: Vec<char> = Vec::new();
    let mut j: usize = start;
    while j < n
        invariant
            start <= j <= n,
            n == path.len(),
            name@ == path@.subrange(start as int, j as int),
        decreases n - j,
    {
        name.push(path[j]);
        j += 1;
    }
    assert(name@ == path@.skip(start as int));
    (directory, name)
}

/// What the pane shows of one changed file.
fn build_entry(change: &FileChange, index: usize) -> (r: Entry)
    ensures
        r@ == entry_of(*change, index as int),
{
    let path = chars_of(change.path.as_str());
    let (directory, name) = split_path(&path);
    Entry {
        index,
        directory,
        name,
        status: change.status,
        additions: count_tagged(change, LineTag::Added),
        deletions: count_tagged(change, LineTag::Removed),
    }
}

/// What the pane shows of the changed files, in their order.
fn build_entries(changes: &Vec<FileChange>) -> (r: Vec<Entry>)
    ensures
        entry_views(r@) == entries_of(changes@),
{
    let mut entries: Vec<Entry> = Vec::new();
    let mut i: usize = 0;
    while i < changes.len()
        invariant
            i <= changes.len(),
            entry_views(entries@) == entries_of(changes@).take(i as int),
        decreases changes.len() - i,
    {
        let ghost before = entry_views(entries@);
        let entry = build_entry(&changes[i], i);
        let ghost shown = entry@;
        entries.push(entry);
        assert(entry_views(entries@) == before.push(shown));
        assert(entries_of(changes@).take(i + 1) == entries_of(changes@).take(i as int).push(shown));
        i += 1;
    }
    assert(entries_of(changes@).take(changes.len() as int) == entries_of(changes@));
    entries
}

/// Puts the directory `d` at its place among `dirs`, unless it is there.
fn add_directory(dirs: &mut Vec<Vec<char>>, d: &Vec<char>)
    ensures
        rows(final(dirs)@) == with_directory(rows(old(dirs)@), d@),
{
    let ghost all = rows(dirs@);
    let mut p: usize = 0;
    assert(all.skip(0) == all);
    while p < dirs.len() && is_before(&dirs[p], d)
        invariant
            p <= dirs.len(),
            all == rows(dirs@),
            directory_position(all, d@) == p + directory_position(all.skip(p as int), d@),
        decreases dirs.len() - p,
    {
        proof {
            assert(all.skip(p as int)[0] == dirs@[p as int]@);
            assert(all.skip(p as int).skip(1) == all.skip(p + 1));
        }
        p += 1;
    }
    proof {
        if p < dirs.len() {
            assert(all.skip(p as int)[0] == dirs@[p as int]@);
        }
        assert(directory_position(all, d@) == p);
    }
    if p < dirs.len() && chars_eq(&dirs[p], d) {
    } else {
        dirs.insert(p, copy_line(d));
        assert(rows(dirs@) == all.insert(p as int, d@));
    }
}

/// The directories of the entries, each once, in the order of strings.
fn build_directories(entries: &Vec<Entry>) -> (r: Vec<Vec<char>>)
    ensures
        rows(r@) == directories(entry_views(entries@)),
{
    let ghost views = entry_views(entries@);
    let mut dirs: Vec<Vec<char>> = Vec::new();
    let mut i: usize = 0;
    assert(views.take(0) == Seq::<EntryView>::empty());
    assert(rows(dirs@) == Seq::<Seq<char>>::empty());
    while i < entries.len()
        invariant
            i <= entries.len(),
            views == entry_views(entries@),
            rows(dirs@) == directories(views.take(i as int)),
        decreases entries.len() - i,
    {
        proof {
            assert(views.take(i + 1).drop_last() == views.take(i as int));
            assert(views.take(i + 1).last() == entries@[i as int]@);
        }
        add_directory(&mut dirs, &entries[i].directory);
        i += 1;
    }
    assert(views.take(entries.len() as int) == views);
    dirs
}

/// The count `n` behind a space and the sign `sign`.
fn signed(sign: char, n: u128) -> (r: Vec<char>)
    ensures
        r@ == signed_count(sign, n as nat),
{
    let mut text: Vec<char> = Vec::new();
    text.push(' ');
    text.push(sign);
    let digits = decimal_of(n);
    push_chars(&mut text, &digits);
    text
}

/// The line of a file.
fn build_file_line(entry: &Entry, current: usize, theme: &Theme, width: usize) -> (r: Vec<StyledSpan>)
    ensures
        span_views(r@) == file_line(entry@, current as int, *theme, width as int),
{
    let (mark_char, color) = match entry.status {
        FileStatus::Added => ('+', theme.file_tree_added),
        FileStatus::Deleted => ('-', theme.file_tree_deleted),
        FileStatus::Modified => ('~', theme.file_tree_modified),
        FileStatus::Renamed => ('>', theme.file_tree_renamed),
    };
    let mut mark: Vec<char> = Vec::new();
    mark.push(mark_char);
    mark.push(' ');
    assert(mark@ == seq![status_mark(entry@.status), ' ']);
    assert(color == status_color(entry@.status, *theme));
    let mut indent: Vec<char> = Vec::new();
    if entry.directory.len() > 0 {
        indent.push(' ');
        indent.push(' ');
    }
    assert(indent@ == indent_of(entry@.directory));
    let plus = signed('+', entry.additions);
    let minus = signed('-', entry.deletions);
    let mut spans: Vec<StyledSpan> = Vec::new();
    if entry.index == current {
        let bg = Some(theme.file_tree_current_file_bg);
        let len: u128 = (indent.len() as u128) + 2 + wide_byte_len(&entry.name) + (plus.len() as u128)
            + (minus.len() as u128);
        assert(len == entry_len(entry@));
        spans.push(StyledSpan::styled(string_of(&indent), None, bg, false));
        spans.push(StyledSpan::styled(string_of(&mark), Some(color), bg, true));
        spans.push(
            StyledSpan::styled(
                string_of(&entry.name),
                Some(theme.file_tree_current_file_fg),
                bg,
                true,
            ),
        );
        spans.push(
            StyledSpan::styled(string_of(&plus), Some(theme.file_tree_stats_added), bg, false),
        );
        spans.push(
            StyledSpan::styled(string_of(&minus), Some(theme.file_tree_stats_deleted), bg, false),
        );
        let ghost line = span_views(spans@);
        assert(line == seq![
            colored(indent@, None, bg, false),
            colored(mark@, Some(color), bg, true),
            colored(entry@.name, Some(theme.file_tree_current_file_fg), bg, true),
            colored(plus@, Some(theme.file_tree_stats_added), bg, false),
            colored(minus@, Some(theme.file_tree_stats_deleted), bg, false),
        ]);
        if len < (width as u128) {
            let mut fill: Vec<char> = Vec::new();
            push_spaces(&mut fill, width - (len as usize));
            assert(fill@ == spaces((width - len) as nat)) by {
                assert(Seq::<char>::empty() + spaces((width - len) as nat) == spaces(
                    (width - len) as nat,
                ));
            }
            spans.push(StyledSpan::styled(string_of(&fill), None, bg, false));
            assert(span_views(spans@) == line.push(colored(fill@, None, bg, false)));
        }
    } else {
        spans.push(StyledSpan::raw(string_of(&indent)));
        spans.push(StyledSpan::styled(string_of(&mark), Some(color), None, true));
        spans.push(
            StyledSpan::styled(string_of(&entry.name), Some(theme.file_tree_default), None, false),
        );
        spans.push(
            StyledSpan::styled(string_of(&plus), Some(theme.file_tree_stats_added), None, false),
        );
        spans.push(
            StyledSpan::styled(string_of(&minus), Some(theme.file_tree_stats_deleted), None, false),
        );
        assert(span_views(spans@) == seq![
            plain(indent@),
            colored(mark@, Some(color), None, true),
            colored(entry@.name, Some(theme.file_tree_default), None, false),
            colored(plus@, Some(theme.file_tree_stats_added), None, false),
            colored(minus@, Some(theme.file_tree_stats_deleted), None, false),
        ]);
    }
    spans
}

impl FileTreePane {
    /// The lines of the tree of the files that a commit changed.
    pub fn build_tree_lines(
        metadata: &CommitMetadata,
        current_file_index: usize,
        theme: &Theme,
        area_width: usize,
    ) -> (r: Vec<Vec<StyledSpan>>)
        ensures
            line_views(r@) == tree_lines(
                metadata.changes@,
                current_file_index as int,
                *theme,
                area_width as int,
            ),
    {
        let entries = build_entries(&metadata.changes);
        let dirs = build_directories(&entries);
        let ghost views = entry_views(entries@);
        let ghost names = rows(dirs@);
        let ghost current = current_file_index as int;
        let ghost width = area_width as int;
        let mut lines: Vec<Vec<StyledSpan>> = Vec::new();
        let mut d: usize = 0;
        assert(line_views(lines@) == Seq::<Seq<SpanView>>::empty());
        while d < dirs.len()
            invariant
                d <= dirs.len(),
                views == entry_views(entries@),
                names == rows(dirs@),
                current == current_file_index,
                width == area_width,
                line_views(lines@) == blocks_through(views, names, d as int, current, *theme, width),
            decreases dirs.len() - d,
        {
            let dir = &dirs[d];
            let ghost done = line_views(lines@);
            let ghost name = dir@;
            assert(name == names[d as int]);
            if dir.len() > 0 {
                let mut title = copy_line(dir);
                title.push('/');
                let mut header: Vec<StyledSpan> = Vec::new();
                header.push(
                    StyledSpan::styled(
                        string_of(&title),
                        Some(theme.file_tree_directory),
                        None,
                        true,
                    ),
                );
                assert(span_views(header@) == directory_line(name, *theme));
                lines.push(header);
                assert(line_views(lines@) == done.push(directory_line(name, *theme)));
            }
            let ghost headed = line_views(lines@);
            let mut i: usize = 0;
            assert(views.take(0) == Seq::<EntryView>::empty());
            assert(headed + files_in(views.take(0), name, current, *theme, width) == headed);
            while i < entries.len()
                invariant
                    i <= entries.len(),
                    d < dirs.len(),
                    dir == dirs@[d as int],
                    name == dir@,
                    views == entry_views(entries@),
                    current == current_file_index,
                    width == area_width,
                    line_views(lines@) == headed + files_in(
                        views.take(i as int),
                        name,
                        current,
                        *theme,
                        width,
                    ),
                decreases entries.len() - i,
            {
                let entry = &entries[i];
                proof {
                    assert(views.take(i + 1).drop_last() == views.take(i as int));
                    assert(views.take(i + 1).last() == entry@);
                }
                if chars_eq(&entry.directory, dir) {
                    let ghost before = line_views(lines@);
                    let line = build_file_line(entry, current_file_index, theme, area_width);
                    let ghost shown = span_views(line@);
                    lines.push(line);
                    assert(line_views(lines@) == before.push(shown));
                    assert(before.push(shown) == headed + files_in(
                        views.take(i as int),
                        name,
                        current,
                        *theme,
                        width,
                    ).push(shown));
                }
                i += 1;
            }
            proof {
                assert(views.take(entries.len() as int) == views);
                let files = files_in(views, name, current, *theme, width);
                if name.len() > 0 {
                    assert(done.push(directory_line(name, *theme)) + files == done + (seq![
                        directory_line(name, *theme),
                    ] + files));
                }
            }
            d += 1;
        }
        lines
    }

    /// The lines that the pane shows in an area of `width` columns: the
    /// tree of the changed files, or a notice while no commit is loaded.
    pub fn render(
        &self,
        metadata: Option<&CommitMetadata>,
        current_file_index: usize,
        theme: &Theme,
        width: u16,
    ) -> (r: Vec<Vec<StyledSpan>>)
        ensures
            line_views(r@) == match metadata {
                Some(meta) => tree_lines(
                    meta.changes@,
                    current_file_index as int,
                    *theme,
                    if width >= 4 {
                        width - 4
                    } else {
                        0
                    },
                ),
                None => no_commit_notice(),
            },
    {
        match metadata {
            Some(meta) => {
                let content_width: usize = if width >= 4 {
                    (width - 4) as usize
                } else {
                    0
                };
                FileTreePane::build_tree_lines(meta, current_file_index, theme, content_width)
            },
            None => {
                let mut lines: Vec<Vec<StyledSpan>> = Vec::new();
                let mut spans: Vec<StyledSpan> = Vec::new();
                spans.push(StyledSpan::raw(String::from_str("No commit loaded")));
                assert(span_views(spans@) == no_commit_notice()[0]);
                lines.push(spans);
                assert(line_views(lines@) == no_commit_notice());
                lines
            },
        }
    }
}

} // verus!
