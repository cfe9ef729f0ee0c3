//! The edit script builder: from the hunks of a file change to the ordered
//! steps of its animation.

use vstd::prelude::*;
use crate::buffer::EditStep;
use crate::diff::{
    all_lines, lemma_lines_split, lemma_side_concat, lines_from, lines_through, new_side,
    old_side, side, FileChange, Hunk, LineTag, LineView,
};
use crate::snapshot::DiffSnapshot;
use crate::text::{chars_eq, chars_of, rows};

verus! {

/// The steps that type one line: one per character, then the line feed that
/// closes the line.
pub open spec fn type_line(line: Seq<char>) -> Seq<EditStep> {
    type_chars(line).push(type_step('\n'))
}

/// The step that types `c`.
pub open spec fn type_step(c: char) -> EditStep {
    EditStep::TypeChar(c)
}

/// One typing step per character of `line`, in order.
pub open spec fn type_chars(line: Seq<char>) -> Seq<EditStep>
    decreases line.len(),
{
    if line.len() == 0 {
        Seq::empty()
    } else {
        type_chars(line.drop_last()).push(type_step(line.last()))
    }
}

/// The steps for the lines `lines` of a hunk, given the typing steps `pending`
/// of the added lines met since the last context line. A removed line is
/// deleted at once; the typing of added lines waits until the run of changed
/// lines ends, so that in every run the deletions come first.
pub open spec fn hunk_steps(lines: Seq<LineView>, pending: Seq<EditStep>) -> Seq<EditStep>
    decreases lines.len(),
{
    if lines.len() == 0 {
        pending
    } else {
        match lines[0].tag {
            LineTag::Context => pending + seq![EditStep::SkipContextLine] + hunk_steps(
                lines.skip(1),
                Seq::empty(),
            ),
            LineTag::Removed => seq![EditStep::DeleteLine] + hunk_steps(lines.skip(1), pending),
            LineTag::Added => hunk_steps(lines.skip(1), pending + type_line(lines[0].content)),
        }
    }
}

/// The steps for one hunk.
pub open spec fn hunk_script(lines: Seq<LineView>) -> Seq<EditStep> {
    hunk_steps(lines, Seq::empty())
}

/// The steps for the first `n` hunks.
pub open spec fn script_through(hunks: Seq<Seq<LineView>>, n: int) -> Seq<EditStep>
    decreases n,
{
    if n <= 0 {
        Seq::empty()
    } else {
        script_through(hunks, n - 1) + hunk_script(hunks[n - 1])
    }
}

/// The edit script of a change: the steps of its hunks, hunk after hunk.
pub open spec fn script_of(hunks: Seq<Seq<LineView>>) -> Seq<EditStep> {
    script_through(hunks, hunks.len() as int)
}

/// Whether the hunks reproduce both texts: their context and removed lines
/// are the old lines, their context and added lines the new lines.
pub open spec fn consistent(
    hunks: Seq<Seq<LineView>>,
    old_lines: Seq<Seq<char>>,
    new_lines: Seq<Seq<char>>,
) -> bool {
    &&& old_side(all_lines(hunks)) == old_lines
    &&& new_side(all_lines(hunks)) == new_lines
}

/// Why no script could be built for a change.
#[derive(Clone, Copy, Debug, PartialEq, Eq, Structural)]
pub enum ScriptError {
    /// The context and removed lines of the hunks are not the old text.
    OldTextMismatch,
    /// The context and added lines of the hunks are not the new text.
    NewTextMismatch,
}

/// Whether the lines of `change` that do not carry the tag `skipped` are
/// the lines `target`.
fn side_is(change: &FileChange, skipped: LineTag, target_lines: &Vec<Vec<char>>) -> (r: bool)
    ensures
        r == (side(all_lines(change@), skipped) == rows(target_lines@)),
{
    let count = target_lines.len();
    let ghost target = rows(target_lines@);
    let ghost hunks = change@;
    let mut k: usize = 0;
    let mut h: usize = 0;
    while h < change.hunks.len()
        invariant
            h <= change.hunks.len(),
            hunks == change@,
            k <= count,
            count == target.len(),
            target == rows(target_lines@),
            side(lines_through(hunks, h as int), skipped) == target.take(k as int),
        decreases change.hunks.len() - h,
    {
        let hunk = &change.hunks[h];
        let ghost done = lines_through(hunks, h as int);
        let ghost lines = hunks[h as int];
        let mut j: usize = 0;
        assert(done + lines.take(0) == done);
        while j < hunk.lines.len()
            invariant
                j <= hunk.lines.len(),
                h < change.hunks.len(),
                hunks == change@,
                hunk == change.hunks@[h as int],
                lines == hunk@,
                lines == hunks[h as int],
                done == lines_through(hunks, h as int),
                k <= count,
                count == target.len(),
                target == rows(target_lines@),
                side(done + lines.take(j as int), skipped) == target.take(k as int),
            decreases hunk.lines.len() - j,
        {
            let line = &hunk.lines[j];
            let ghost seen = done + lines.take(j as int);
            proof {
                assert(line@ == lines[j as int]);
                assert(done + lines.take(j + 1) == seen.push(lines[j as int]));
                assert(seen.push(lines[j as int]).drop_last() == seen);
                lemma_lines_split(hunks, h as int);
                assert(lines_from(hunks, h as int) == lines + lines_from(hunks, h + 1));
                assert(lines == lines.take(j + 1) + lines.skip(j + 1));
                assert(all_lines(hunks) == seen.push(lines[j as int]) + (lines.skip(j + 1)
                    + lines_from(hunks, h + 1)));
                lemma_side_concat(
                    seen.push(lines[j as int]),
                    lines.skip(j + 1) + lines_from(hunks, h + 1),
                    skipped,
                );
            }
            if line.tag() != skipped {
                if k >= count {
                    return false;
                }
                let content = chars_of(line.content().as_str());
                assert(target[k as int] == target_lines@[k as int]@);
                if !chars_eq(&content, &target_lines[k]) {
                    assert(side(all_lines(hunks), skipped)[k as int] == content@);
                    return false;
                }
                assert(target.take(k + 1) == target.take(k as int).push(target[k as int]));
                k += 1;
            }
            j += 1;
        }
        assert(lines.take(j as int) == lines);
        h += 1;
    }
    assert(lines_through(hunks, h as int) == all_lines(hunks));
    if k == count {
        assert(target.take(k as int) == target);
        true
    } else {
        false
    }
}

/// The typing steps of a line, index by index.
pub proof fn lemma_type_line(line: Seq<char>)
    ensures
        type_line(line).len() == line.len() + 1,
        forall|i: int| 0 <= i < line.len() ==> #[trigger] type_line(line)[i] == type_step(line[i]),
        type_line(line)[line.len() as int] == type_step('\n'),
{
    lemma_type_chars(line);
}

/// The character steps of a line, index by index.
pub proof fn lemma_type_chars(line: Seq<char>)
    ensures
        type_chars(line).len() == line.len(),
        forall|i: int| 0 <= i < line.len() ==> #[trigger] type_chars(line)[i] == type_step(line[i]),
    decreases line.len(),
{
    if line.len() > 0 {
        lemma_type_chars(line.drop_last());
    }
}

/// Whether the context and removed lines of `change` are the lines of the
/// old text of `snapshot`.
pub fn old_side_matches(change: &FileChange, snapshot: &DiffSnapshot) -> (r: bool)
    ensures
        r == (old_side(all_lines(change@)) == snapshot.old_lines()),
{
    side_is(change, LineTag::Added, snapshot.old_rows())
}

/// Whether the context and added lines of `change` are the lines of the new
/// text of `snapshot`.
pub fn new_side_matches(change: &FileChange, snapshot: &DiffSnapshot) -> (r: bool)
    ensures
        r == (new_side(all_lines(change@)) == snapshot.new_lines()),
{
    side_is(change, LineTag::Removed, snapshot.new_rows())
}

/// Appends to `steps` the steps that type `line`.
fn push_typed_line(steps: &mut Vec<EditStep>, line: &Vec<char>)
    ensures
        final(steps)@ == old(steps)@ + type_line(line@),
{
    let ghost before = steps@;
    let mut i: usize = 0;
    while i < line.len()
        invariant
            i <= line.len(),
            steps@ == before + type_line(line@).take(i as int),
        decreases line.len() - i,
    {
        steps.push(EditStep::TypeChar(line[i]));
        proof {
            let typed = type_line(line@);
            lemma_type_line(line@);
            assert(typed.take(i + 1) == typed.take(i as int).push(typed[i as int]));
        }
        i += 1;
    }
    steps.push(EditStep::TypeChar('\n'));
    proof {
        let typed = type_line(line@);
        lemma_type_line(line@);
        assert(typed == typed.take(line@.len() as int).push(typed[line@.len() as int]));
    }
}

/// Appends to `steps` all of `more`, which is left empty.
fn drain_into(steps: &mut Vec<EditStep>, more: &mut Vec<EditStep>)
    ensures
        final(steps)@ == old(steps)@ + old(more)@,
        final(more)@ == Seq::<EditStep>::empty(),
{
    steps.append(more);
}

/// Appends to `steps` the steps of one hunk.
fn push_hunk_script(steps: &mut Vec<EditStep>, hunk: &Hunk)
    ensures
        final(steps)@ == old(steps)@ + hunk_script(hunk@),
{
    let ghost before = steps@;
    let ghost lines = hunk@;
    let mut pending: Vec<EditStep> = Vec::new();
    let mut emitted: Ghost<Seq<EditStep>> = Ghost(Seq::empty());
    let mut i: usize = 0;
    assert(lines.skip(0) == lines);
    assert(Seq::<EditStep>::empty() + hunk_steps(lines, pending@) == hunk_steps(lines, pending@));
    while i < hunk.lines.len()
        invariant
            i <= hunk.lines.len(),
            lines == hunk@,
            steps@ == before + emitted@,
            emitted@ + hunk_steps(lines.skip(i as int), pending@) == hunk_script(lines),
        decreases hunk.lines.len() - i,
    {
        let line = &hunk.lines[i];
        let ghost rest = lines.skip(i + 1);
        let ghost waiting = pending@;
        proof {
            assert(line@ == lines[i as int]);
            assert(lines.skip(i as int)[0] == lines[i as int]);
            assert(lines.skip(i as int).skip(1) == rest);
        }
        match line.tag() {
            LineTag::Context => {
                drain_into(steps, &mut pending);
                steps.push(EditStep::SkipContextLine);
                proof {
                    let next = emitted@ + waiting + seq![EditStep::SkipContextLine];
                    assert(emitted@ + (waiting + seq![EditStep::SkipContextLine] + hunk_steps(
                        rest,
                        Seq::empty(),
                    )) == next + hunk_steps(rest, Seq::empty()));
                    assert(steps@ == before + next);
                    emitted@ = next;
                }
            },
            LineTag::Removed => {
                steps.push(EditStep::DeleteLine);
                proof {
                    let next = emitted@ + seq![EditStep::DeleteLine];
                    assert(emitted@ + (seq![EditStep::DeleteLine] + hunk_steps(rest, waiting))
                        == next + hunk_steps(rest, waiting));
                    assert(steps@ == before + next);
                    emitted@ = next;
                }
            },
            LineTag::Added => {
                let content = chars_of(line.content().as_str());
                push_typed_line(&mut pending, &content);
            },
        }
        i += 1;
    }
    let ghost waiting = pending@;
    assert(lines.skip(i as int).len() == 0);
    drain_into(steps, &mut pending);
    assert(steps@ == before + (emitted@ + hunk_steps(lines.skip(i as int), waiting)));
}

/// Builds the edit script of `change` against `snapshot`. The script is built
/// only if the hunks reproduce both texts of the snapshot.
pub fn build_script(change: &FileChange, snapshot: &DiffSnapshot) -> (r: Result<
    Vec<EditStep>,
    ScriptError,
>)
    ensures
        r is Ok <==> consistent(change@, snapshot.old_lines(), snapshot.new_lines()),
        r matches Ok(steps) ==> steps@ == script_of(change@),
        r == Err::<Vec<EditStep>, ScriptError>(ScriptError::OldTextMismatch) <==> old_side(
            all_lines(change@),
        ) != snapshot.old_lines(),
        r == Err::<Vec<EditStep>, ScriptError>(ScriptError::NewTextMismatch) <==> old_side(
            all_lines(change@),
        ) == snapshot.old_lines() && new_side(all_lines(change@)) != snapshot.new_lines(),
{
    if !old_side_matches(change, snapshot) {
        return Err(ScriptError::OldTextMismatch);
    }
    if !new_side_matches(change, snapshot) {
        return Err(ScriptError::NewTextMismatch);
    }
    let mut steps: Vec<EditStep> = Vec::new();
    let mut h: usize = 0;
    while h < change.hunks.len()
        invariant
            h <= change.hunks.len(),
            steps@ == script_through(change@, h as int),
        decreases change.hunks.len() - h,
    {
        push_hunk_script(&mut steps, &change.hunks[h]);
        h += 1;
    }
    Ok(steps)
}

} // verus!
