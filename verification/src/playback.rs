//! What an edit script does to a buffer: every state on the way keeps the new
//! text above the cursor and the old text below it, and the last state holds
//! the new text.

use vstd::prelude::*;
use crate::buffer::{BufferState, EditStep};
use crate::diff::{
    lemma_lines_split, lemma_side_concat, lemma_side_first, lines_from, lines_through, new_side,
    old_side, side, LineTag, LineView,
};
use crate::script::{
    consistent, hunk_script, hunk_steps, lemma_type_line, script_of, script_through, type_line,
    type_step,
};
use crate::snapshot::DiffSnapshot;
use crate::text::{lemma_split_lines_no_newline, no_newline};

verus! {

/// The number of old lines that a state has consumed: the old line that the
/// first line below the typed part stands for.
pub open spec fn consumed(s: BufferState) -> int {
    if s.cursor_col == 0 {
        s.cursor_line - s.line_offset
    } else {
        s.cursor_line + 1 - s.line_offset
    }
}

/// The duality of a state between two texts: the lines above the cursor are
/// the new lines of the same indices; from the cursor on, the lines are the
/// old lines shifted by the line offset, but for the line under the cursor
/// while it is being typed, which holds the typed part of its new line.
pub open spec fn duality(s: BufferState, old_lines: Seq<Seq<char>>, new_lines: Seq<Seq<char>>) -> bool {
    &&& s.wf()
    &&& s.cursor_line <= new_lines.len()
    &&& 0 <= consumed(s) <= old_lines.len()
    &&& s.lines.take(s.cursor_line) == new_lines.take(s.cursor_line)
    &&& if s.cursor_col == 0 {
        s.lines.skip(s.cursor_line) == old_lines.skip(s.cursor_line - s.line_offset)
    } else {
        &&& s.cursor_line < new_lines.len()
        &&& s.cursor_col <= new_lines[s.cursor_line].len()
        &&& s.lines[s.cursor_line] == new_lines[s.cursor_line].take(s.cursor_col)
        &&& s.lines.skip(s.cursor_line + 1) == old_lines.skip(s.cursor_line + 1 - s.line_offset)
    }
}

/// The state that has typed `cl` whole new lines and `col` characters of the
/// next, and has consumed `c` old lines.
pub open spec fn staged(
    old_lines: Seq<Seq<char>>,
    new_lines: Seq<Seq<char>>,
    cl: int,
    c: int,
    col: int,
) -> BufferState {
    if col == 0 {
        BufferState {
            lines: new_lines.take(cl) + old_lines.skip(c),
            cursor_line: cl,
            cursor_col: 0,
            line_offset: cl - c,
        }
    } else {
        BufferState {
            lines: new_lines.take(cl).push(new_lines[cl].take(col)) + old_lines.skip(c),
            cursor_line: cl,
            cursor_col: col,
            line_offset: cl + 1 - c,
        }
    }
}

/// Whether `cl`, `c` and `col` are a stage of the morph from `old_lines` to
/// `new_lines`.
pub open spec fn stage_ok(
    old_lines: Seq<Seq<char>>,
    new_lines: Seq<Seq<char>>,
    cl: int,
    c: int,
    col: int,
) -> bool {
    &&& 0 <= cl <= new_lines.len()
    &&& 0 <= c <= old_lines.len()
    &&& 0 <= col
    &&& col > 0 ==> cl < new_lines.len() && col <= new_lines[cl].len()
}

/// A state is in duality exactly if it is the stage that its cursor and line
/// offset name.
pub proof fn lemma_duality_staged(s: BufferState, old_lines: Seq<Seq<char>>, new_lines: Seq<Seq<char>>)
    ensures
        duality(s, old_lines, new_lines) <==> stage_ok(
            old_lines,
            new_lines,
            s.cursor_line,
            consumed(s),
            s.cursor_col,
        ) && s == staged(old_lines, new_lines, s.cursor_line, consumed(s), s.cursor_col),
{
    let cl = s.cursor_line;
    let c = consumed(s);
    let col = s.cursor_col;
    let t = staged(old_lines, new_lines, cl, c, col);
    if duality(s, old_lines, new_lines) {
        if col == 0 {
            assert(s.lines == s.lines.take(cl) + s.lines.skip(cl));
        } else {
            assert(s.lines == s.lines.take(cl).push(s.lines[cl]) + s.lines.skip(cl + 1));
        }
        assert(s.lines == t.lines);
    }
    if stage_ok(old_lines, new_lines, cl, c, col) && s == t {
        if col == 0 {
            assert(t.lines.take(cl) == new_lines.take(cl));
            assert(t.lines.skip(cl) == old_lines.skip(c));
        } else {
            assert(t.lines.take(cl) == new_lines.take(cl));
            assert(t.lines[cl] == new_lines[cl].take(col));
            assert(t.lines.skip(cl + 1) == old_lines.skip(c));
        }
    }
}

/// Whether the step `e` is the right one in state `s`: it skips a line that
/// both texts share, deletes an old line, or types the next character of the
/// new line under the cursor.
pub open spec fn step_fits(
    s: BufferState,
    e: EditStep,
    old_lines: Seq<Seq<char>>,
    new_lines: Seq<Seq<char>>,
) -> bool {
    match e {
        EditStep::SkipContextLine => {
            &&& s.cursor_col == 0
            &&& s.cursor_line < new_lines.len()
            &&& 0 <= consumed(s) < old_lines.len()
            &&& old_lines[consumed(s)] == new_lines[s.cursor_line]
        },
        EditStep::DeleteLine => {
            &&& s.cursor_col == 0
            &&& 0 <= consumed(s) < old_lines.len()
        },
        EditStep::TypeChar(ch) => {
            &&& s.cursor_line < new_lines.len()
            &&& if ch == '\n' {
                s.cursor_col == new_lines[s.cursor_line].len()
            } else {
                s.cursor_col < new_lines[s.cursor_line].len() && new_lines[s.cursor_line][s.cursor_col]
                    == ch
            }
        },
    }
}

/// The stage after a fitting step.
pub open spec fn next_stage(s: BufferState, e: EditStep) -> (int, int, int) {
    match e {
        EditStep::SkipContextLine => (s.cursor_line + 1, consumed(s) + 1, 0),
        EditStep::DeleteLine => (s.cursor_line, consumed(s) + 1, 0),
        EditStep::TypeChar(ch) => if ch == '\n' {
            (s.cursor_line + 1, consumed(s), 0)
        } else {
            (s.cursor_line, consumed(s), s.cursor_col + 1)
        },
    }
}

/// A fitting step leads from a stage to the next stage.
pub proof fn lemma_step_staged(
    old_lines: Seq<Seq<char>>,
    new_lines: Seq<Seq<char>>,
    cl: int,
    c: int,
    col: int,
    e: EditStep,
)
    requires
        stage_ok(old_lines, new_lines, cl, c, col),
        step_fits(staged(old_lines, new_lines, cl, c, col), e, old_lines, new_lines),
    ensures
        ({
            let s = staged(old_lines, new_lines, cl, c, col);
            let (cl2, c2, col2) = next_stage(s, e);
            &&& consumed(s) == c
            &&& stage_ok(old_lines, new_lines, cl2, c2, col2)
            &&& s.step(e) == staged(old_lines, new_lines, cl2, c2, col2)
        }),
{
    let s = staged(old_lines, new_lines, cl, c, col);
    let (cl2, c2, col2) = next_stage(s, e);
    let t = staged(old_lines, new_lines, cl2, c2, col2);
    let above = new_lines.take(cl);
    let below = old_lines.skip(c);
    match e {
        EditStep::SkipContextLine => {
            assert(s.lines[cl] == old_lines[c]);
            assert(s.step(e).lines == t.lines);
        },
        EditStep::DeleteLine => {
            assert(s.lines.remove(cl) == t.lines);
        },
        EditStep::TypeChar(ch) => {
            let opened = s.open_line();
            let line = new_lines[cl];
            if col == 0 {
                assert(opened.lines == above.push(Seq::<char>::empty()) + below);
                assert(line.take(0) == Seq::<char>::empty());
            }
            assert(opened.lines == above.push(line.take(col)) + below);
            assert(opened.lines[cl] == line.take(col));
            if ch == '\n' {
                assert(line.take(col) == line);
                assert(above.push(line) == new_lines.take(cl + 1));
                assert(s.step(e).lines == t.lines);
            } else {
                assert(line.take(col).insert(col, ch) == line.take(col + 1));
                assert(opened.lines.update(cl, line.take(col + 1)) == above.push(
                    line.take(col + 1),
                ) + below);
                assert(s.step(e).lines == t.lines);
            }
        },
    }
}

/// **Duality is kept by every fitting step.**
pub proof fn lemma_step_keeps_duality(
    s: BufferState,
    e: EditStep,
    old_lines: Seq<Seq<char>>,
    new_lines: Seq<Seq<char>>,
)
    requires
        duality(s, old_lines, new_lines),
        step_fits(s, e, old_lines, new_lines),
    ensures
        duality(s.step(e), old_lines, new_lines),
{
    lemma_duality_staged(s, old_lines, new_lines);
    lemma_step_staged(old_lines, new_lines, s.cursor_line, consumed(s), s.cursor_col, e);
    let t = s.step(e);
    let (cl2, c2, col2) = next_stage(s, e);
    assert(consumed(t) == c2);
    lemma_duality_staged(t, old_lines, new_lines);
}

/// Whether every step of `steps` fits the state in which it is applied, from
/// `s` on.
pub open spec fn run_fits(
    s: BufferState,
    steps: Seq<EditStep>,
    old_lines: Seq<Seq<char>>,
    new_lines: Seq<Seq<char>>,
) -> bool
    decreases steps.len(),
{
    steps.len() == 0 || (run_fits(s, steps.drop_last(), old_lines, new_lines) && step_fits(
        s.replay(steps.drop_last()),
        steps.last(),
        old_lines,
        new_lines,
    ))
}

/// Replaying a concatenation is replaying its parts in turn.
pub proof fn lemma_replay_concat(s: BufferState, a: Seq<EditStep>, b: Seq<EditStep>)
    ensures
        s.replay(a + b) == s.replay(a).replay(b),
    decreases b.len(),
{
    if b.len() == 0 {
        assert(a + b == a);
    } else {
        lemma_replay_concat(s, a, b.drop_last());
        assert((a + b).drop_last() == a + b.drop_last());
        assert((a + b).last() == b.last());
    }
}

/// A run fits if its first part fits, and its second part fits the state
/// that the first part leads to.
pub proof fn lemma_run_fits_concat(
    s: BufferState,
    a: Seq<EditStep>,
    b: Seq<EditStep>,
    old_lines: Seq<Seq<char>>,
    new_lines: Seq<Seq<char>>,
)
    requires
        run_fits(s, a, old_lines, new_lines),
        run_fits(s.replay(a), b, old_lines, new_lines),
    ensures
        run_fits(s, a + b, old_lines, new_lines),
    decreases b.len(),
{
    if b.len() == 0 {
        assert(a + b == a);
    } else {
        lemma_run_fits_concat(s, a, b.drop_last(), old_lines, new_lines);
        lemma_replay_concat(s, a, b.drop_last());
        assert((a + b).drop_last() == a + b.drop_last());
        assert((a + b).last() == b.last());
    }
}

/// A run of one fitting step fits, and leads to the state after that step.
pub proof fn lemma_run_of_one(
    s: BufferState,
    e: EditStep,
    old_lines: Seq<Seq<char>>,
    new_lines: Seq<Seq<char>>,
)
    requires
        step_fits(s, e, old_lines, new_lines),
    ensures
        run_fits(s, seq![e], old_lines, new_lines),
        s.replay(seq![e]) == s.step(e),
{
    let one = seq![e];
    assert(one.drop_last() == Seq::<EditStep>::empty());
    assert(s.replay(one.drop_last()) == s);
    assert(run_fits(s, one.drop_last(), old_lines, new_lines));
    assert(one.last() == e);
}

/// Every prefix of a fitting run fits.
pub proof fn lemma_run_fits_prefix(
    s: BufferState,
    steps: Seq<EditStep>,
    k: int,
    old_lines: Seq<Seq<char>>,
    new_lines: Seq<Seq<char>>,
)
    requires
        run_fits(s, steps, old_lines, new_lines),
        0 <= k <= steps.len(),
    ensures
        run_fits(s, steps.take(k), old_lines, new_lines),
        k < steps.len() ==> step_fits(s.replay(steps.take(k)), steps[k], old_lines, new_lines),
    decreases steps.len(),
{
    if k == steps.len() {
        assert(steps.take(k) == steps);
    } else {
        assert(steps.drop_last().take(k) == steps.take(k));
        if k == steps.len() - 1 {
            assert(steps.take(k) == steps.drop_last());
        } else {
            lemma_run_fits_prefix(s, steps.drop_last(), k, old_lines, new_lines);
        }
    }
}

/// **Duality is kept by every fitting run.**
pub proof fn lemma_run_keeps_duality(
    s: BufferState,
    steps: Seq<EditStep>,
    old_lines: Seq<Seq<char>>,
    new_lines: Seq<Seq<char>>,
)
    requires
        duality(s, old_lines, new_lines),
        run_fits(s, steps, old_lines, new_lines),
    ensures
        duality(s.replay(steps), old_lines, new_lines),
    decreases steps.len(),
{
    if steps.len() > 0 {
        lemma_run_keeps_duality(s, steps.drop_last(), old_lines, new_lines);
        lemma_step_keeps_duality(s.replay(steps.drop_last()), steps.last(), old_lines, new_lines);
    }
}

/// Typing the first `k` characters of the next new line fits, and leads to
/// the stage with `k` characters typed.
pub proof fn lemma_type_prefix(
    old_lines: Seq<Seq<char>>,
    new_lines: Seq<Seq<char>>,
    cl: int,
    c: int,
    k: int,
)
    requires
        stage_ok(old_lines, new_lines, cl, c, 0),
        cl < new_lines.len(),
        no_newline(new_lines[cl]),
        0 <= k <= new_lines[cl].len(),
    ensures
        run_fits(
            staged(old_lines, new_lines, cl, c, 0),
            type_line(new_lines[cl]).take(k),
            old_lines,
            new_lines,
        ),
        staged(old_lines, new_lines, cl, c, 0).replay(type_line(new_lines[cl]).take(k)) == staged(
            old_lines,
            new_lines,
            cl,
            c,
            k,
        ),
    decreases k,
{
    let typed = type_line(new_lines[cl]);
    lemma_type_line(new_lines[cl]);
    if k > 0 {
        lemma_type_prefix(old_lines, new_lines, cl, c, k - 1);
        assert(typed.take(k).drop_last() == typed.take(k - 1));
        assert(typed.take(k).last() == type_step(new_lines[cl][k - 1]));
        lemma_step_staged(old_lines, new_lines, cl, c, k - 1, typed.take(k).last());
    }
}

/// Typing the next new line fits, and leads to the stage below that line.
pub proof fn lemma_type_whole_line(
    old_lines: Seq<Seq<char>>,
    new_lines: Seq<Seq<char>>,
    cl: int,
    c: int,
)
    requires
        stage_ok(old_lines, new_lines, cl, c, 0),
        cl < new_lines.len(),
        no_newline(new_lines[cl]),
    ensures
        run_fits(
            staged(old_lines, new_lines, cl, c, 0),
            type_line(new_lines[cl]),
            old_lines,
            new_lines,
        ),
        staged(old_lines, new_lines, cl, c, 0).replay(type_line(new_lines[cl])) == staged(
            old_lines,
            new_lines,
            cl + 1,
            c,
            0,
        ),
{
    let line = new_lines[cl];
    let typed = type_line(line);
    let n = line.len() as int;
    lemma_type_line(line);
    lemma_type_prefix(old_lines, new_lines, cl, c, n);
    assert(typed.drop_last() == typed.take(n));
    assert(typed.last() == type_step('\n'));
    lemma_step_staged(old_lines, new_lines, cl, c, n, typed.last());
}

/// The steps that type the lines `lines`, one after the other.
pub open spec fn type_lines(lines: Seq<Seq<char>>) -> Seq<EditStep>
    decreases lines.len(),
{
    if lines.len() == 0 {
        Seq::empty()
    } else {
        type_lines(lines.drop_last()) + type_line(lines.last())
    }
}

/// Typing the next new lines fits, and leads to the stage below them.
pub proof fn lemma_type_lines(
    old_lines: Seq<Seq<char>>,
    new_lines: Seq<Seq<char>>,
    cl: int,
    c: int,
    typed: Seq<Seq<char>>,
)
    requires
        stage_ok(old_lines, new_lines, cl, c, 0),
        cl + typed.len() <= new_lines.len(),
        new_lines.subrange(cl, cl + typed.len()) == typed,
        forall|i: int| 0 <= i < new_lines.len() ==> no_newline(#[trigger] new_lines[i]),
    ensures
        run_fits(staged(old_lines, new_lines, cl, c, 0), type_lines(typed), old_lines, new_lines),
        staged(old_lines, new_lines, cl, c, 0).replay(type_lines(typed)) == staged(
            old_lines,
            new_lines,
            cl + typed.len(),
            c,
            0,
        ),
    decreases typed.len(),
{
    let start = staged(old_lines, new_lines, cl, c, 0);
    if typed.len() > 0 {
        let n = typed.len() as int;
        let head = typed.drop_last();
        assert(new_lines.subrange(cl, cl + n - 1) == head);
        lemma_type_lines(old_lines, new_lines, cl, c, head);
        assert(typed.last() == new_lines[cl + n - 1]);
        lemma_type_whole_line(old_lines, new_lines, cl + n - 1, c);
        lemma_run_fits_concat(start, type_lines(head), type_line(typed.last()), old_lines, new_lines);
        lemma_replay_concat(start, type_lines(head), type_line(typed.last()));
    }
}

/// The steps of the lines of a hunk fit, and lead to the stage below them:
/// whenever the old lines from `c` on begin with the old side of `lines`, and
/// the new lines from `cl` on begin with the pending lines `typed` followed by
/// the new side of `lines`.
pub proof fn lemma_hunk_steps(
    old_lines: Seq<Seq<char>>,
    new_lines: Seq<Seq<char>>,
    lines: Seq<LineView>,
    typed: Seq<Seq<char>>,
    cl: int,
    c: int,
)
    requires
        stage_ok(old_lines, new_lines, cl, c, 0),
        c + old_side(lines).len() <= old_lines.len(),
        old_lines.subrange(c, c + old_side(lines).len()) == old_side(lines),
        cl + typed.len() + new_side(lines).len() <= new_lines.len(),
        new_lines.subrange(cl, cl + typed.len() + new_side(lines).len()) == typed + new_side(lines),
        forall|i: int| 0 <= i < new_lines.len() ==> no_newline(#[trigger] new_lines[i]),
    ensures
        run_fits(
            staged(old_lines, new_lines, cl, c, 0),
            hunk_steps(lines, type_lines(typed)),
            old_lines,
            new_lines,
        ),
        staged(old_lines, new_lines, cl, c, 0).replay(hunk_steps(lines, type_lines(typed)))
            == staged(
            old_lines,
            new_lines,
            cl + typed.len() + new_side(lines).len(),
            c + old_side(lines).len(),
            0,
        ),
    decreases lines.len(),
{
    let start = staged(old_lines, new_lines, cl, c, 0);
    let pending = type_lines(typed);
    let t = typed.len() as int;
    let ns = new_side(lines);
    let os = old_side(lines);
    assert(new_lines.subrange(cl, cl + t) == typed) by {
        assert(new_lines.subrange(cl, cl + t) == new_lines.subrange(cl, cl + t + ns.len()).take(t));
        assert((typed + ns).take(t) == typed);
    }
    if lines.len() == 0 {
        lemma_type_lines(old_lines, new_lines, cl, c, typed);
    } else {
        let rest = lines.skip(1);
        lemma_side_first(lines, LineTag::Added);
        lemma_side_first(lines, LineTag::Removed);
        let ns1 = new_side(rest);
        let os1 = old_side(rest);
        match lines[0].tag {
            LineTag::Context => {
                let skip = seq![EditStep::SkipContextLine];
                let mid = staged(old_lines, new_lines, cl + t, c, 0);
                lemma_type_lines(old_lines, new_lines, cl, c, typed);
                assert(old_lines[c] == lines[0].content) by {
                    assert(old_lines.subrange(c, c + os.len())[0] == os[0]);
                }
                assert(new_lines[cl + t] == lines[0].content) by {
                    assert(new_lines.subrange(cl, cl + t + ns.len())[t] == (typed + ns)[t]);
                }
                lemma_step_staged(old_lines, new_lines, cl + t, c, 0, EditStep::SkipContextLine);
                let after = staged(old_lines, new_lines, cl + t + 1, c + 1, 0);
                lemma_run_of_one(mid, EditStep::SkipContextLine, old_lines, new_lines);
                assert(mid.replay(skip) == after);
                lemma_run_fits_concat(start, pending, skip, old_lines, new_lines);
                lemma_replay_concat(start, pending, skip);
                assert(old_lines.subrange(c + 1, c + 1 + os1.len()) == os1) by {
                    assert(old_lines.subrange(c + 1, c + 1 + os1.len()) == old_lines.subrange(
                        c,
                        c + os.len(),
                    ).skip(1));
                    assert((seq![lines[0].content] + os1).skip(1) == os1);
                }
                assert(new_lines.subrange(cl + t + 1, cl + t + 1 + ns1.len()) == Seq::<
                    Seq<char>,
                >::empty() + ns1) by {
                    assert(new_lines.subrange(cl + t + 1, cl + t + 1 + ns1.len())
                        == new_lines.subrange(cl, cl + t + ns.len()).skip(t + 1));
                    assert((typed + (seq![lines[0].content] + ns1)).skip(t + 1) == ns1);
                }
                assert(type_lines(Seq::<Seq<char>>::empty()) == Seq::<EditStep>::empty());
                lemma_hunk_steps(old_lines, new_lines, rest, Seq::empty(), cl + t + 1, c + 1);
                lemma_run_fits_concat(
                    start,
                    pending + skip,
                    hunk_steps(rest, Seq::empty()),
                    old_lines,
                    new_lines,
                );
                lemma_replay_concat(start, pending + skip, hunk_steps(rest, Seq::empty()));
            },
            LineTag::Removed => {
                let del = seq![EditStep::DeleteLine];
                lemma_step_staged(old_lines, new_lines, cl, c, 0, EditStep::DeleteLine);
                let after = staged(old_lines, new_lines, cl, c + 1, 0);
                lemma_run_of_one(start, EditStep::DeleteLine, old_lines, new_lines);
                assert(start.replay(del) == after);
                assert(old_lines.subrange(c + 1, c + 1 + os1.len()) == os1) by {
                    assert(old_lines.subrange(c + 1, c + 1 + os1.len()) == old_lines.subrange(
                        c,
                        c + os.len(),
                    ).skip(1));
                    assert((seq![lines[0].content] + os1).skip(1) == os1);
                }
                lemma_hunk_steps(old_lines, new_lines, rest, typed, cl, c + 1);
                lemma_run_fits_concat(start, del, hunk_steps(rest, pending), old_lines, new_lines);
                lemma_replay_concat(start, del, hunk_steps(rest, pending));
            },
            LineTag::Added => {
                let more = typed.push(lines[0].content);
                assert(more.drop_last() == typed);
                assert(type_lines(more) == pending + type_line(lines[0].content));
                assert(typed + (seq![lines[0].content] + ns1) == more + ns1);
                lemma_hunk_steps(old_lines, new_lines, rest, more, cl, c);
            },
        }
    }
}

/// The number of new lines that the first `n` hunks hold.
pub open spec fn new_count(hunks: Seq<Seq<LineView>>, n: int) -> int {
    new_side(lines_through(hunks, n)).len() as int
}

/// The number of old lines that the first `n` hunks hold.
pub open spec fn old_count(hunks: Seq<Seq<LineView>>, n: int) -> int {
    old_side(lines_through(hunks, n)).len() as int
}

/// The script of the first `n` hunks of a consistent change fits the start
/// state, and leads to the stage below the lines of these hunks.
pub proof fn lemma_script_through(
    hunks: Seq<Seq<LineView>>,
    old_lines: Seq<Seq<char>>,
    new_lines: Seq<Seq<char>>,
    n: int,
)
    requires
        consistent(hunks, old_lines, new_lines),
        forall|i: int| 0 <= i < new_lines.len() ==> no_newline(#[trigger] new_lines[i]),
        0 <= n <= hunks.len(),
    ensures
        new_count(hunks, n) <= new_lines.len(),
        old_count(hunks, n) <= old_lines.len(),
        run_fits(BufferState::initial(old_lines), script_through(hunks, n), old_lines, new_lines),
        BufferState::initial(old_lines).replay(script_through(hunks, n)) == staged(
            old_lines,
            new_lines,
            new_count(hunks, n),
            old_count(hunks, n),
            0,
        ),
    decreases n,
{
    let start = BufferState::initial(old_lines);
    let done = lines_through(hunks, n);
    let rest = lines_from(hunks, n);
    lemma_lines_split(hunks, n);
    lemma_side_concat(done, rest, LineTag::Added);
    lemma_side_concat(done, rest, LineTag::Removed);
    if n == 0 {
        assert(old_lines.skip(0) == old_lines);
        assert(new_lines.take(0) + old_lines == old_lines);
    } else {
        lemma_script_through(hunks, old_lines, new_lines, n - 1);
        let before = lines_through(hunks, n - 1);
        let hunk = hunks[n - 1];
        let cl = new_count(hunks, n - 1);
        let c = old_count(hunks, n - 1);
        lemma_side_concat(before, hunk, LineTag::Added);
        lemma_side_concat(before, hunk, LineTag::Removed);
        let os = old_side(hunk);
        let ns = new_side(hunk);
        assert(old_lines.subrange(c, c + os.len()) == os) by {
            assert(old_lines == old_side(before) + os + old_side(rest));
        }
        assert(new_lines.subrange(cl, cl + ns.len()) == Seq::<Seq<char>>::empty() + ns) by {
            assert(new_lines == new_side(before) + ns + new_side(rest));
        }
        assert(type_lines(Seq::<Seq<char>>::empty()) == Seq::<EditStep>::empty());
        lemma_hunk_steps(old_lines, new_lines, hunk, Seq::empty(), cl, c);
        lemma_run_fits_concat(
            start,
            script_through(hunks, n - 1),
            hunk_script(hunk),
            old_lines,
            new_lines,
        );
        lemma_replay_concat(start, script_through(hunks, n - 1), hunk_script(hunk));
    }
}

/// The first step of a fitting run fits, the rest of the run fits the state
/// after it, and the run leads where the rest leads from there.
pub proof fn lemma_run_head(
    s: BufferState,
    steps: Seq<EditStep>,
    old_lines: Seq<Seq<char>>,
    new_lines: Seq<Seq<char>>,
)
    requires
        steps.len() > 0,
        run_fits(s, steps, old_lines, new_lines),
    ensures
        step_fits(s, steps[0], old_lines, new_lines),
        run_fits(s.step(steps[0]), steps.skip(1), old_lines, new_lines),
        s.replay(steps) == s.step(steps[0]).replay(steps.skip(1)),
    decreases steps.len(),
{
    let first = seq![steps[0]];
    assert(first.drop_last() == Seq::<EditStep>::empty());
    assert(s.replay(first.drop_last()) == s);
    assert(s.replay(first) == s.step(steps[0]));
    if steps.len() == 1 {
        assert(steps.drop_last() == Seq::<EditStep>::empty());
        assert(steps.skip(1) == Seq::<EditStep>::empty());
        assert(steps == first);
    } else {
        let init = steps.drop_last();
        lemma_run_head(s, init, old_lines, new_lines);
        assert(init.skip(1) == steps.skip(1).drop_last());
        assert(steps.skip(1).last() == steps.last());
        assert(init[0] == steps[0]);
    }
}

/// In duality, the line offset and the number of lines stay within the sizes
/// of the two texts.
pub proof fn lemma_duality_bounds(
    s: BufferState,
    old_lines: Seq<Seq<char>>,
    new_lines: Seq<Seq<char>>,
)
    requires
        duality(s, old_lines, new_lines),
    ensures
        -old_lines.len() <= s.line_offset <= new_lines.len(),
        s.lines.len() <= old_lines.len() + new_lines.len(),
        s.line_offset == s.lines.len() - old_lines.len(),
{
    lemma_duality_staged(s, old_lines, new_lines);
}

/// A step that fits moves the line offset by one at most, and keeps it
/// within the sizes of the two texts.
pub proof fn lemma_fitting_step_bounds(
    s: BufferState,
    e: EditStep,
    old_lines: Seq<Seq<char>>,
    new_lines: Seq<Seq<char>>,
)
    requires
        duality(s, old_lines, new_lines),
        step_fits(s, e, old_lines, new_lines),
    ensures
        -old_lines.len() <= s.step(e).line_offset <= new_lines.len(),
        s.step(e).cursor_line <= new_lines.len(),
{
    lemma_step_keeps_duality(s, e, old_lines, new_lines);
    lemma_duality_bounds(s.step(e), old_lines, new_lines);
}

/// Typing lines one after the other is typing the first of them, and then
/// the others.
pub proof fn lemma_type_lines_first(lines: Seq<Seq<char>>)
    requires
        lines.len() > 0,
    ensures
        type_lines(lines) == type_line(lines[0]) + type_lines(lines.skip(1)),
    decreases lines.len(),
{
    let rest = lines.skip(1);
    if lines.len() == 1 {
        assert(lines.drop_last() == Seq::<Seq<char>>::empty());
        assert(type_lines(lines.drop_last()) == Seq::<EditStep>::empty());
        assert(Seq::<EditStep>::empty() + type_line(lines.last()) == type_line(lines.last()));
        assert(type_line(lines[0]) + Seq::<EditStep>::empty() == type_line(lines[0]));
    } else {
        lemma_type_lines_first(lines.drop_last());
        assert(lines.drop_last().skip(1) == rest.drop_last());
        assert(rest.last() == lines.last());
        assert(lines.drop_last()[0] == lines[0]);
        assert((type_line(lines[0]) + type_lines(rest.drop_last())) + type_line(lines.last())
            == type_line(lines[0]) + (type_lines(rest.drop_last()) + type_line(lines.last())));
    }
}

/// `n` deletions.
pub open spec fn deletions(n: nat) -> Seq<EditStep> {
    Seq::new(n, |i: int| EditStep::DeleteLine)
}

/// Whether none of the lines is a context line.
pub open spec fn no_context(lines: Seq<LineView>) -> bool {
    forall|i: int| 0 <= i < lines.len() ==> (#[trigger] lines[i]).tag != LineTag::Context
}

/// The steps of a run of changed lines, given typing steps that wait: the
/// deletions, then what waits, then the typing of the added lines.
pub proof fn lemma_run_steps(run: Seq<LineView>, pending: Seq<EditStep>)
    requires
        no_context(run),
    ensures
        hunk_steps(run, pending) == deletions(old_side(run).len()) + pending + type_lines(
            new_side(run),
        ),
    decreases run.len(),
{
    if run.len() == 0 {
        assert(deletions(0) + pending + Seq::<EditStep>::empty() == pending);
    } else {
        let rest = run.skip(1);
        assert(no_context(rest)) by {
            assert forall|i: int| 0 <= i < rest.len() implies (#[trigger] rest[i]).tag
                != LineTag::Context by {
                assert(rest[i] == run[i + 1]);
            }
        }
        lemma_side_first(run, LineTag::Added);
        lemma_side_first(run, LineTag::Removed);
        let n = old_side(rest).len();
        let typed = type_lines(new_side(rest));
        match run[0].tag {
            LineTag::Removed => {
                lemma_run_steps(rest, pending);
                assert(deletions(n + 1) == seq![EditStep::DeleteLine] + deletions(n));
                assert(seq![EditStep::DeleteLine] + (deletions(n) + pending + typed) == (seq![
                    EditStep::DeleteLine,
                ] + deletions(n)) + pending + typed);
            },
            LineTag::Added => {
                let line = type_line(run[0].content);
                lemma_run_steps(rest, pending + line);
                lemma_type_lines_first(new_side(run));
                assert(new_side(run).skip(1) == new_side(rest));
                assert(deletions(n) + (pending + line) + typed == deletions(n) + pending + (line
                    + typed));
            },
            LineTag::Context => {},
        }
    }
}

/// **Deletions come first.** The script of a run of changed lines deletes
/// every removed line of the run before it types the first added one.
pub proof fn law_deletions_first(run: Seq<LineView>)
    requires
        no_context(run),
    ensures
        hunk_script(run) == deletions(old_side(run).len()) + type_lines(new_side(run)),
{
    lemma_run_steps(run, Seq::empty());
    assert(deletions(old_side(run).len()) + Seq::<EditStep>::empty() == deletions(
        old_side(run).len(),
    ));
}

/// The number of lines of `lines` that carry the tag `tag`.
pub open spec fn count_tag(lines: Seq<LineView>, tag: LineTag) -> int
    decreases lines.len(),
{
    if lines.len() == 0 {
        0
    } else if lines.last().tag == tag {
        count_tag(lines.drop_last(), tag) + 1
    } else {
        count_tag(lines.drop_last(), tag)
    }
}

/// A side holds every line but those of the skipped tag.
pub proof fn lemma_side_len(lines: Seq<LineView>, skipped: LineTag)
    ensures
        side(lines, skipped).len() == lines.len() - count_tag(lines, skipped),
    decreases lines.len(),
{
    if lines.len() > 0 {
        lemma_side_len(lines.drop_last(), skipped);
    }
}

/// Whether `change` is a change between the two texts of `snapshot`.
pub open spec fn change_fits(change: Seq<Seq<LineView>>, snapshot: DiffSnapshot) -> bool {
    consistent(change, snapshot.old_lines(), snapshot.new_lines())
}

/// The state in which the playback of `snapshot` starts.
pub open spec fn start_of(snapshot: DiffSnapshot) -> BufferState {
    BufferState::initial(snapshot.old_lines())
}

/// The script of a change fits the start state of its snapshot.
pub proof fn lemma_script_fits(change: Seq<Seq<LineView>>, snapshot: DiffSnapshot)
    requires
        snapshot.wf(),
        change_fits(change, snapshot),
    ensures
        duality(start_of(snapshot), snapshot.old_lines(), snapshot.new_lines()),
        run_fits(start_of(snapshot), script_of(change), snapshot.old_lines(), snapshot.new_lines()),
{
    let old_lines = snapshot.old_lines();
    let new_lines = snapshot.new_lines();
    lemma_split_lines_no_newline(snapshot.new_text());
    lemma_script_through(change, old_lines, new_lines, change.len() as int);
    lemma_script_through(change, old_lines, new_lines, 0);
    lemma_duality_staged(start_of(snapshot), old_lines, new_lines);
}

/// **Completion.** Once the whole script of a change has been applied to the
/// old text, the lines are those of the new text, and the cursor stands
/// below the last of them.
pub proof fn law_completion(change: Seq<Seq<LineView>>, snapshot: DiffSnapshot)
    requires
        snapshot.wf(),
        change_fits(change, snapshot),
    ensures
        start_of(snapshot).replay(script_of(change)).lines == snapshot.new_lines(),
        start_of(snapshot).replay(script_of(change)).cursor_line == snapshot.new_lines().len(),
        start_of(snapshot).replay(script_of(change)).cursor_col == 0,
        start_of(snapshot).replay(script_of(change)).line_offset == snapshot.new_lines().len()
            - snapshot.old_lines().len(),
{
    let old_lines = snapshot.old_lines();
    let new_lines = snapshot.new_lines();
    lemma_split_lines_no_newline(snapshot.new_text());
    lemma_script_through(change, old_lines, new_lines, change.len() as int);
    assert(new_lines.take(new_lines.len() as int) == new_lines);
    assert(new_lines + old_lines.skip(old_lines.len() as int) == new_lines);
}

/// **Duality.** After any number of steps of the script of a change, the
/// lines above the cursor are the new lines of the same indices. Between
/// lines, when the cursor stands at column 0, the lines from the cursor on
/// are the old lines from `cursor_line - line_offset` on. While a line is
/// being typed, the line under the cursor holds the typed part of its new
/// line, and the lines below it are the old lines from
/// `cursor_line + 1 - line_offset` on: the old line with the index
/// `l - line_offset` stands in each line `l` below the cursor.
pub proof fn law_duality(change: Seq<Seq<LineView>>, snapshot: DiffSnapshot, k: int)
    requires
        snapshot.wf(),
        change_fits(change, snapshot),
        0 <= k <= script_of(change).len(),
    ensures
        ({
            let s = start_of(snapshot).replay(script_of(change).take(k));
            let old_lines = snapshot.old_lines();
            let new_lines = snapshot.new_lines();
            &&& duality(s, old_lines, new_lines)
            &&& s.line_offset == s.lines.len() - old_lines.len()
            &&& s.lines.take(s.cursor_line) == new_lines.take(s.cursor_line)
            &&& s.cursor_col == 0 ==> s.lines.skip(s.cursor_line) == old_lines.skip(
                if s.cursor_line - s.line_offset >= 0 {
                    s.cursor_line - s.line_offset
                } else {
                    0
                },
            )
            &&& forall|l: int|
                s.cursor_line < l < s.lines.len() ==> 0 <= l - s.line_offset < old_lines.len()
                    && #[trigger] s.lines[l] == old_lines[l - s.line_offset]
        }),
{
    let old_lines = snapshot.old_lines();
    let new_lines = snapshot.new_lines();
    let script = script_of(change);
    let start = start_of(snapshot);
    lemma_script_fits(change, snapshot);
    lemma_run_fits_prefix(start, script, k, old_lines, new_lines);
    lemma_run_keeps_duality(start, script.take(k), old_lines, new_lines);
    let s = start.replay(script.take(k));
    lemma_duality_staged(s, old_lines, new_lines);
    let cl = s.cursor_line;
    assert forall|l: int| cl < l < s.lines.len() implies 0 <= l - s.line_offset < old_lines.len()
        && #[trigger] s.lines[l] == old_lines[l - s.line_offset] by {
        if s.cursor_col == 0 {
            assert(s.lines[l] == s.lines.skip(cl)[l - cl]);
        } else {
            assert(s.lines[l] == s.lines.skip(cl + 1)[l - cl - 1]);
        }
    }
}

/// **Line offset bookkeeping.** Over the steps of one hunk the line offset
/// grows by the number of lines that the hunk adds, less the number of lines
/// that it removes.
pub proof fn law_line_offset(change: Seq<Seq<LineView>>, snapshot: DiffSnapshot, h: int)
    requires
        snapshot.wf(),
        change_fits(change, snapshot),
        0 <= h < change.len(),
    ensures
        start_of(snapshot).replay(script_through(change, h + 1)).line_offset == start_of(
            snapshot,
        ).replay(script_through(change, h)).line_offset + count_tag(change[h], LineTag::Added)
            - count_tag(change[h], LineTag::Removed),
{
    let old_lines = snapshot.old_lines();
    let new_lines = snapshot.new_lines();
    lemma_split_lines_no_newline(snapshot.new_text());
    lemma_script_through(change, old_lines, new_lines, h);
    lemma_script_through(change, old_lines, new_lines, h + 1);
    let before = lines_through(change, h);
    lemma_side_concat(before, change[h], LineTag::Added);
    lemma_side_concat(before, change[h], LineTag::Removed);
    lemma_side_len(change[h], LineTag::Added);
    lemma_side_len(change[h], LineTag::Removed);
}

} // verus!
