//! The animation engine: the state machine that a tick source drives through
//! the edit scripts of the commits of a history.

use vstd::prelude::*;
use crate::buffer::{BufferState, EditStep, PlaybackBuffer};
use crate::diff::FileChange;
use crate::order::{CommitQueue, PlaybackOrder};
use crate::playback::{
    change_fits, duality, law_completion, lemma_duality_staged, lemma_fitting_step_bounds,
    lemma_run_head, lemma_script_fits, lemma_step_keeps_duality, run_fits, start_of,
};
use crate::script::{build_script, script_of};
use crate::scroll::scrolled;
use crate::snapshot::DiffSnapshot;
use crate::transcript::{Transcript, TranscriptState};

verus! {

/// The pane that has the focus, and with it the cursor.
#[derive(Clone, Copy, Debug, PartialEq, Eq, Structural)]
pub enum ActivePane {
    Editor,
    Terminal,
}

/// Where the engine stands.
#[derive(Clone, Copy, Debug, PartialEq, Eq, Structural)]
pub enum EngineState {
    /// No commit is being played; the engine waits for the next one.
    Idle,
    /// The files of a commit are being played.
    Playing,
    /// The last commit has been played, and playback does not loop.
    Finished,
}

/// The choices that the timing of the animation leaves open.
#[derive(Clone, Copy, Debug, PartialEq, Eq, Structural)]
pub struct PlaybackPolicy {
    /// Whether a tick passes over the context lines ahead of the cursor at
    /// once, before it applies its one step that types or deletes. Otherwise
    /// each context line takes a tick of its own.
    pub instant_context: bool,
    /// Whether a terminal command is typed one character per tick. Otherwise
    /// it appears at once.
    pub typed_terminal: bool,
    /// The number of ticks after which the cursor blinks; 0 for a cursor that
    /// never blinks.
    pub blink_period: u64,
}

/// One file of a commit, ready to be played.
#[derive(Debug)]
pub struct FilePlayback {
    pub change: FileChange,
    pub snapshot: DiffSnapshot,
    /// The command that the terminal shows when the file is opened.
    pub command: String,
}

/// What a tick did.
#[derive(Clone, Copy, Debug, PartialEq, Eq, Structural)]
pub enum TickOutcome {
    /// The engine is idle or finished: nothing was done.
    Nothing,
    /// Steps of the current script were applied.
    Stepped,
    /// The script was exhausted, and the next file of the commit was opened.
    NextFile,
    /// The script of the last file was exhausted: the commit is done. Holds
    /// the commit to play next, if there is one.
    CommitDone(Option<usize>),
}

/// The number of context-line steps in a row that `script` holds from the
/// position `from` on.
pub open spec fn skips_from(script: Seq<EditStep>, from: int) -> int
    decreases script.len() - from,
{
    if 0 <= from < script.len() && script[from] == EditStep::SkipContextLine {
        1 + skips_from(script, from + 1)
    } else {
        0
    }
}

/// The number of steps that one tick applies at `position`: one step, and,
/// where context lines pass at once, the context-line steps ahead of it.
pub open spec fn tick_span(script: Seq<EditStep>, position: int, instant_context: bool) -> int {
    if position >= script.len() {
        0
    } else if !instant_context {
        1
    } else {
        let k = skips_from(script, position);
        if position + k < script.len() {
            k + 1
        } else {
            k
        }
    }
}

/// The text state and the scroll offset after the steps `steps`, where the
/// scroll offset is recomputed after every step for a window of `height`
/// lines.
pub open spec fn play(s: BufferState, scroll: int, steps: Seq<EditStep>, height: int) -> (
    BufferState,
    int,
)
    decreases steps.len(),
{
    if steps.len() == 0 {
        (s, scroll)
    } else {
        let (before, offset) = play(s, scroll, steps.drop_last(), height);
        let after = before.step(steps.last());
        (after, scrolled(after.cursor_line, offset, height))
    }
}

/// Playing steps does to the text what replaying them does.
pub proof fn lemma_play_replay(s: BufferState, scroll: int, steps: Seq<EditStep>, height: int)
    ensures
        play(s, scroll, steps, height).0 == s.replay(steps),
    decreases steps.len(),
{
    if steps.len() > 0 {
        lemma_play_replay(s, scroll, steps.drop_last(), height);
    }
}

/// The tick count after one more tick.
pub open spec fn next_count(count: u64) -> u64 {
    if count == u64::MAX {
        0
    } else {
        (count + 1) as u64
    }
}

/// Whether the cursor shows after the tick that brings the tick count to
/// `count`.
pub open spec fn blinked(visible: bool, count: u64, period: u64) -> bool {
    if period > 0 && count % period == 0 {
        !visible
    } else {
        visible
    }
}

/// The text state in which a change is shown that cannot be animated.
pub open spec fn revealed_state(snapshot: DiffSnapshot) -> BufferState {
    BufferState {
        lines: snapshot.new_lines(),
        cursor_line: snapshot.new_lines().len() as int,
        cursor_col: 0,
        line_offset: snapshot.new_lines().len() - snapshot.old_lines().len(),
    }
}

/// The orchestrator of the playback.
#[derive(Debug)]
pub struct AnimationEngine {
    buffer: PlaybackBuffer,
    script: Vec<EditStep>,
    position: usize,
    files: Vec<FilePlayback>,
    file_index: usize,
    transcript: Transcript,
    active_pane: ActivePane,
    cursor_visible: bool,
    tick_count: u64,
    queue: CommitQueue,
    state: EngineState,
    viewport_height: usize,
    policy: PlaybackPolicy,
}

impl AnimationEngine {
    /// The buffer of the file that is being played.
    pub closed spec fn buffer(&self) -> PlaybackBuffer {
        self.buffer
    }

    /// The script of the file that is being played.
    pub closed spec fn script(&self) -> Seq<EditStep> {
        self.script@
    }

    /// The number of steps of the script that have been applied.
    pub closed spec fn position(&self) -> int {
        self.position as int
    }

    /// The files of the commit that wait to be played.
    pub closed spec fn files(&self) -> Seq<FilePlayback> {
        self.files@
    }

    /// The index, within its commit, of the file that is being played.
    pub closed spec fn file_index(&self) -> int {
        self.file_index as int
    }

    /// The terminal transcript.
    pub closed spec fn transcript(&self) -> TranscriptState {
        self.transcript@
    }

    /// The pane that has the focus.
    pub closed spec fn active_pane(&self) -> ActivePane {
        self.active_pane
    }

    /// Whether the blinking cursor shows.
    pub closed spec fn cursor_visible(&self) -> bool {
        self.cursor_visible
    }

    /// The number of ticks that the engine has played through, wrapping.
    pub closed spec fn tick_count(&self) -> u64 {
        self.tick_count
    }

    /// The commits that wait to be played.
    pub closed spec fn queue(&self) -> CommitQueue {
        self.queue
    }

    /// Where the engine stands.
    pub closed spec fn state(&self) -> EngineState {
        self.state
    }

    /// The number of lines that the editor window shows.
    pub closed spec fn viewport_height(&self) -> int {
        self.viewport_height as int
    }

    /// The timing policy.
    pub closed spec fn policy(&self) -> PlaybackPolicy {
        self.policy
    }

    /// The steps of the script that are still to be applied.
    pub open spec fn remaining(&self) -> Seq<EditStep> {
        self.script().skip(self.position())
    }

    /// What holds of the engine between any two calls: the buffer is in
    /// duality between the two texts of its snapshot, and the steps that
    /// remain fit it and lead to the new text.
    pub open spec fn wf(&self) -> bool {
        let old_lines = self.buffer().snapshot().old_lines();
        let new_lines = self.buffer().snapshot().new_lines();
        &&& self.buffer().wf()
        &&& self.queue().wf()
        &&& self.transcript().wf()
        &&& 0 <= self.position() <= self.script().len()
        &&& self.file_index() + self.files().len() <= usize::MAX
        &&& duality(self.buffer()@, old_lines, new_lines)
        &&& run_fits(self.buffer()@, self.remaining(), old_lines, new_lines)
        &&& self.buffer()@.replay(self.remaining()).lines == new_lines
        &&& self.state() != EngineState::Playing ==> self.files().len() == 0 && self.remaining().len()
            == 0
    }

    /// Whether the engine has just opened `file`: the buffer holds the old
    /// text and the script is that of the change, or, where the change does
    /// not fit the texts, the buffer holds the new text and there is nothing
    /// to apply.
    pub open spec fn opened(&self, file: FilePlayback) -> bool {
        &&& self.buffer().snapshot() == file.snapshot
        &&& self.position() == 0
        &&& self.buffer().scroll() == 0
        &&& if change_fits(file.change@, file.snapshot) {
            self.buffer()@ == start_of(file.snapshot) && self.script() == script_of(file.change@)
        } else {
            self.buffer()@ == revealed_state(file.snapshot) && self.script() == Seq::<
                EditStep,
            >::empty()
        }
    }

    /// An idle engine over a history of `commit_count` commits, with an empty
    /// buffer and an empty transcript, the focus on the editor and the cursor
    /// showing.
    pub fn new(
        order: PlaybackOrder,
        looping: bool,
        commit_count: usize,
        viewport_height: usize,
        policy: PlaybackPolicy,
    ) -> (r: AnimationEngine)
        ensures
            r.wf(),
            r.state() == EngineState::Idle,
            r.buffer()@ == BufferState::initial(Seq::empty()),
            r.script() == Seq::<EditStep>::empty(),
            r.transcript().lines == Seq::<Seq<char>>::empty(),
            r.transcript().pending == Seq::<char>::empty(),
            r.active_pane() == ActivePane::Editor,
            r.cursor_visible(),
            r.tick_count() == 0,
            r.viewport_height() == viewport_height,
            r.policy() == policy,
            r.queue().order() == order,
            r.queue().looping() == looping,
            r.queue().count() == commit_count,
            r.queue().waiting() == crate::order::all_commits(commit_count as nat),
    {
        let snapshot = DiffSnapshot::empty();
        let buffer = PlaybackBuffer::new(snapshot);
        let r = AnimationEngine {
            buffer,
            script: Vec::new(),
            position: 0,
            files: Vec::new(),
            file_index: 0,
            transcript: Transcript::new(),
            active_pane: ActivePane::Editor,
            cursor_visible: true,
            tick_count: 0,
            queue: CommitQueue::new(order, commit_count, looping),
            state: EngineState::Idle,
            viewport_height,
            policy,
        };
        proof {
            let old_lines = r.buffer().snapshot().old_lines();
            let new_lines = r.buffer().snapshot().new_lines();
            lemma_duality_staged(r.buffer()@, old_lines, new_lines);
            assert(r.remaining() == Seq::<EditStep>::empty());
        }
        r
    }

    /// Whether `self` differs from `before` in the buffer and the position
    /// at most.
    pub open spec fn same_stage(&self, before: &AnimationEngine) -> bool {
        &&& self.script() == before.script()
        &&& self.files() == before.files()
        &&& self.file_index() == before.file_index()
        &&& self.transcript() == before.transcript()
        &&& self.active_pane() == before.active_pane()
        &&& self.cursor_visible() == before.cursor_visible()
        &&& self.tick_count() == before.tick_count()
        &&& self.queue() == before.queue()
        &&& self.state() == before.state()
        &&& self.viewport_height() == before.viewport_height()
        &&& self.policy() == before.policy()
        &&& self.buffer().snapshot() == before.buffer().snapshot()
    }

    /// Whether `self` plays what `before` plays, and stands where it stands.
    pub open spec fn same_playback(&self, before: &AnimationEngine) -> bool {
        &&& self.buffer() == before.buffer()
        &&& self.script() == before.script()
        &&& self.position() == before.position()
        &&& self.files() == before.files()
        &&& self.file_index() == before.file_index()
    }

    /// Whether the clock of `self` shows what that of `before` shows.
    pub open spec fn same_clock(&self, before: &AnimationEngine) -> bool {
        &&& self.transcript() == before.transcript()
        &&& self.cursor_visible() == before.cursor_visible()
        &&& self.tick_count() == before.tick_count()
    }

    /// Whether `self` has the clock of `before` after one more tick: the
    /// tick count has grown, the cursor has blinked if its period is up, and
    /// the terminal has typed its next character.
    pub open spec fn ticked(&self, before: &AnimationEngine) -> bool {
        &&& self.tick_count() == next_count(before.tick_count())
        &&& self.cursor_visible() == blinked(
            before.cursor_visible(),
            self.tick_count(),
            before.policy().blink_period,
        )
        &&& self.active_pane() == before.active_pane()
        &&& self.viewport_height() == before.viewport_height()
        &&& self.policy() == before.policy()
    }

    /// Applies the next `n` steps of the script, and recomputes the scroll
    /// offset after each.
    fn advance(&mut self, n: usize)
        requires
            old(self).wf(),
            old(self).position() + n <= old(self).script().len(),
        ensures
            final(self).wf(),
            final(self).same_stage(old(self)),
            final(self).position() == old(self).position() + n,
            (final(self).buffer()@, final(self).buffer().scroll()) == play(
                old(self).buffer()@,
                old(self).buffer().scroll(),
                old(self).script().subrange(old(self).position(), old(self).position() + n),
                old(self).viewport_height(),
            ),
    {
        let ghost before = *self;
        let ghost start = self.position as int;
        let ghost old_lines = self.buffer.snapshot().old_lines();
        let ghost new_lines = self.buffer.snapshot().new_lines();
        let mut i: usize = 0;
        assert(before.script().subrange(start, start) == Seq::<EditStep>::empty());
        while i < n
            invariant
                i <= n,
                start + n <= before.script().len(),
                start == before.position(),
                before.wf(),
                self.wf(),
                self.same_stage(&before),
                self.position() == start + i,
                old_lines == self.buffer().snapshot().old_lines(),
                new_lines == self.buffer().snapshot().new_lines(),
                (self.buffer()@, self.buffer().scroll()) == play(
                    before.buffer()@,
                    before.buffer().scroll(),
                    before.script().subrange(start, start + i),
                    before.viewport_height(),
                ),
            decreases n - i,
        {
            let len = self.script.len();
            let step = self.script[self.position];
            let ghost state = self.buffer@;
            let ghost rest = self.remaining();
            proof {
                assert(rest[0] == step);
                lemma_run_head(state, rest, old_lines, new_lines);
                lemma_step_keeps_duality(state, step, old_lines, new_lines);
                lemma_fitting_step_bounds(state, step, old_lines, new_lines);
                assert(rest.skip(1) == self.script().skip(self.position() + 1));
            }
            self.buffer.apply_step(step);
            self.buffer.scroll_to_cursor(self.viewport_height);
            assert(self.position < len);
            self.position = self.position + 1;
            proof {
                let done = before.script().subrange(start, start + i + 1);
                assert(done.drop_last() == before.script().subrange(start, start + i));
                assert(done.last() == step);
            }
            i += 1;
        }
    }

    /// The number of steps that the next tick applies.
    fn span(&self) -> (n: usize)
        requires
            self.wf(),
        ensures
            n == tick_span(self.script(), self.position(), self.policy().instant_context),
            self.position() + n <= self.script().len(),
            self.position() < self.script().len() ==> n >= 1,
    {
        let len = self.script.len();
        if self.position >= len {
            return 0;
        }
        if !self.policy.instant_context {
            return 1;
        }
        let mut k: usize = 0;
        while self.position + k < len && self.script[self.position + k] == EditStep::SkipContextLine
            invariant
                len == self.script().len(),
                self.position() + k <= len,
                skips_from(self.script(), self.position()) == k + skips_from(
                    self.script(),
                    self.position() + k,
                ),
            decreases len - self.position - k,
        {
            k += 1;
        }
        if self.position + k < len {
            k + 1
        } else {
            k
        }
    }

    /// Opens `file`: builds its script and resets the buffer to its old text,
    /// or, where no script can be built, shows its new text; and begins the
    /// terminal command of the file.
    fn open(&mut self, file: FilePlayback)
        requires
            old(self).wf(),
            old(self).state() == EngineState::Playing,
        ensures
            final(self).wf(),
            final(self).opened(file),
            final(self).transcript() == begun(
                old(self).transcript(),
                file.command@,
                old(self).policy().typed_terminal,
            ),
            final(self).files() == old(self).files(),
            final(self).file_index() == old(self).file_index(),
            final(self).active_pane() == old(self).active_pane(),
            final(self).cursor_visible() == old(self).cursor_visible(),
            final(self).tick_count() == old(self).tick_count(),
            final(self).queue() == old(self).queue(),
            final(self).state() == old(self).state(),
            final(self).viewport_height() == old(self).viewport_height(),
            final(self).policy() == old(self).policy(),
    {
        let FilePlayback { change, snapshot, command } = file;
        snapshot.check();
        match build_script(&change, &snapshot) {
            Ok(steps) => {
                proof {
                    lemma_script_fits(change@, snapshot);
                    law_completion(change@, snapshot);
                    assert(steps@.skip(0) == steps@);
                }
                self.buffer = PlaybackBuffer::new(snapshot);
                self.script = steps;
            },
            Err(_) => {
                proof {
                    let shown = revealed_state(snapshot);
                    lemma_duality_staged(shown, snapshot.old_lines(), snapshot.new_lines());
                    assert(snapshot.new_lines().take(snapshot.new_lines().len() as int)
                        == snapshot.new_lines());
                    assert(snapshot.old_lines().skip(snapshot.old_lines().len() as int) == Seq::<
                        Seq<char>,
                    >::empty());
                    assert(shown.lines.skip(shown.cursor_line) == Seq::<Seq<char>>::empty());
                }
                self.buffer = PlaybackBuffer::revealed(snapshot);
                self.script = Vec::new();
            },
        }
        self.position = 0;
        assert(self.remaining() == self.script());
        self.transcript.begin_command(command.as_str(), self.policy.typed_terminal);
    }

    /// Takes the first commit to play, or, after a commit is done, the commit
    /// that follows it. Only an idle engine takes one; it finishes if there
    /// is none left.
    pub fn next_commit(&mut self, entropy: u64) -> (r: Option<usize>)
        requires
            old(self).wf(),
        ensures
            final(self).wf(),
            old(self).state() != EngineState::Idle ==> r is None && *final(self) == *old(self),
            old(self).state() == EngineState::Idle ==> {
                &&& final(self).same_playback(old(self))
                &&& final(self).same_clock(old(self))
                &&& final(self).active_pane() == old(self).active_pane()
                &&& final(self).viewport_height() == old(self).viewport_height()
                &&& final(self).policy() == old(self).policy()
                &&& taken(old(self).queue(), entropy, r, final(self).queue())
                &&& final(self).state() == if r is Some {
                    EngineState::Idle
                } else {
                    EngineState::Finished
                }
            },
    {
        match self.state {
            EngineState::Idle => {
                let next = self.queue.next(entropy);
                if next.is_none() {
                    self.state = EngineState::Finished;
                }
                next
            },
            _ => None,
        }
    }

    /// Starts to play a commit, given its files in order. Only an idle
    /// engine accepts one.
    pub fn load_commit(&mut self, files: Vec<FilePlayback>) -> (accepted: bool)
        requires
            old(self).wf(),
        ensures
            final(self).wf(),
            accepted == (old(self).state() == EngineState::Idle),
            !accepted ==> *final(self) == *old(self),
            accepted ==> {
                &&& final(self).state() == EngineState::Playing
                &&& final(self).file_index() == 0
                &&& final(self).active_pane() == old(self).active_pane()
                &&& final(self).cursor_visible() == old(self).cursor_visible()
                &&& final(self).tick_count() == old(self).tick_count()
                &&& final(self).queue() == old(self).queue()
                &&& final(self).viewport_height() == old(self).viewport_height()
                &&& final(self).policy() == old(self).policy()
                &&& if files@.len() == 0 {
                    &&& final(self).files() == Seq::<FilePlayback>::empty()
                    &&& final(self).buffer() == old(self).buffer()
                    &&& final(self).script() == old(self).script()
                    &&& final(self).position() == old(self).position()
                    &&& final(self).transcript() == old(self).transcript()
                } else {
                    &&& final(self).files() == files@.skip(1)
                    &&& final(self).opened(files@[0])
                    &&& final(self).transcript() == begun(
                        old(self).transcript(),
                        files@[0].command@,
                        old(self).policy().typed_terminal,
                    )
                }
            },
    {
        match self.state {
            EngineState::Idle => {},
            _ => {
                return false;
            },
        }
        let mut files = files;
        self.state = EngineState::Playing;
        self.file_index = 0;
        if files.len() > 0 {
            let first = files.remove(0);
            self.open(first);
            self.files = files;
        } else {
            assert(self.files() == Seq::<FilePlayback>::empty());
        }
        true
    }

    /// One tick of the clock. An engine that plays applies the steps that
    /// the tick spans; once the script is exhausted it opens the next file
    /// of the commit, or, after the last file, is done with the commit and
    /// takes the next one from the queue.
    pub fn tick(&mut self, entropy: u64) -> (outcome: TickOutcome)
        requires
            old(self).wf(),
        ensures
            final(self).wf(),
            old(self).state() != EngineState::Playing ==> outcome == TickOutcome::Nothing
                && *final(self) == *old(self),
            old(self).state() == EngineState::Playing ==> {
                &&& final(self).ticked(old(self))
                &&& if old(self).position() < old(self).script().len() {
                    let n = tick_span(
                        old(self).script(),
                        old(self).position(),
                        old(self).policy().instant_context,
                    );
                    &&& outcome == TickOutcome::Stepped
                    &&& n >= 1
                    &&& final(self).position() == old(self).position() + n
                    &&& (final(self).buffer()@, final(self).buffer().scroll()) == play(
                        old(self).buffer()@,
                        old(self).buffer().scroll(),
                        old(self).script().subrange(old(self).position(), old(self).position() + n),
                        old(self).viewport_height(),
                    )
                    &&& final(self).buffer().snapshot() == old(self).buffer().snapshot()
                    &&& final(self).script() == old(self).script()
                    &&& final(self).files() == old(self).files()
                    &&& final(self).file_index() == old(self).file_index()
                    &&& final(self).transcript() == old(self).transcript().typed()
                    &&& final(self).queue() == old(self).queue()
                    &&& final(self).state() == EngineState::Playing
                } else if old(self).files().len() > 0 {
                    &&& outcome == TickOutcome::NextFile
                    &&& final(self).opened(old(self).files()[0])
                    &&& final(self).files() == old(self).files().skip(1)
                    &&& final(self).file_index() == old(self).file_index() + 1
                    &&& final(self).transcript() == begun(
                        old(self).transcript().typed(),
                        old(self).files()[0].command@,
                        old(self).policy().typed_terminal,
                    )
                    &&& final(self).queue() == old(self).queue()
                    &&& final(self).state() == EngineState::Playing
                } else {
                    &&& outcome matches TickOutcome::CommitDone(next)
                    &&& taken(old(self).queue(), entropy, next, final(self).queue())
                    &&& final(self).state() == if next is Some {
                        EngineState::Idle
                    } else {
                        EngineState::Finished
                    }
                    &&& final(self).buffer() == old(self).buffer()
                    &&& final(self).script() == old(self).script()
                    &&& final(self).position() == old(self).position()
                    &&& final(self).files() == old(self).files()
                    &&& final(self).file_index() == old(self).file_index()
                    &&& final(self).transcript() == old(self).transcript().typed()
                }
            },
    {
        match self.state {
            EngineState::Playing => {},
            _ => {
                return TickOutcome::Nothing;
            },
        }
        self.tick_count = if self.tick_count == u64::MAX {
            0
        } else {
            self.tick_count + 1
        };
        if self.policy.blink_period > 0 && self.tick_count % self.policy.blink_period == 0 {
            self.cursor_visible = !self.cursor_visible;
        }
        proof {
            crate::transcript::lemma_typing_keeps_settled(self.transcript@);
        }
        self.transcript.type_next();
        if self.position < self.script.len() {
            let n = self.span();
            self.advance(n);
            TickOutcome::Stepped
        } else if self.files.len() > 0 {
            let file = self.files.remove(0);
            self.file_index = self.file_index + 1;
            self.open(file);
            TickOutcome::NextFile
        } else {
            let next = self.queue.next(entropy);
            self.state = match next {
                Some(_) => EngineState::Idle,
                None => EngineState::Finished,
            };
            TickOutcome::CommitDone(next)
        }
    }

    /// Fast-forwards the file that is being played: applies at once every
    /// step that remains of its script. The buffer then holds the new text,
    /// and the next tick finds the script exhausted.
    pub fn skip(&mut self)
        requires
            old(self).wf(),
        ensures
            final(self).wf(),
            final(self).same_stage(old(self)),
            final(self).position() == old(self).script().len(),
            (final(self).buffer()@, final(self).buffer().scroll()) == play(
                old(self).buffer()@,
                old(self).buffer().scroll(),
                old(self).remaining(),
                old(self).viewport_height(),
            ),
            final(self).buffer()@.lines == old(self).buffer().snapshot().new_lines(),
    {
        let n = self.script.len() - self.position;
        proof {
            assert(self.script().subrange(self.position(), self.position() + n)
                == self.remaining());
            lemma_play_replay(
                self.buffer()@,
                self.buffer().scroll(),
                self.remaining(),
                self.viewport_height(),
            );
        }
        self.advance(n);
    }

    /// Appends a line of output to the terminal transcript. A command that
    /// was still being typed is finished first.
    pub fn print_output(&mut self, line: &str)
        requires
            old(self).wf(),
        ensures
            final(self).wf(),
            final(self).transcript() == (TranscriptState {
                lines: old(self).transcript().settled().push(line@),
                pending: Seq::empty(),
            }),
            final(self).same_playback(old(self)),
            final(self).cursor_visible() == old(self).cursor_visible(),
            final(self).tick_count() == old(self).tick_count(),
            final(self).active_pane() == old(self).active_pane(),
            final(self).viewport_height() == old(self).viewport_height(),
            final(self).policy() == old(self).policy(),
            final(self).queue() == old(self).queue(),
            final(self).state() == old(self).state(),
    {
        self.transcript.push_output(line);
    }

    /// Moves the focus to the other pane.
    pub fn switch_pane(&mut self)
        requires
            old(self).wf(),
        ensures
            final(self).wf(),
            final(self).active_pane() == match old(self).active_pane() {
                ActivePane::Editor => ActivePane::Terminal,
                ActivePane::Terminal => ActivePane::Editor,
            },
            final(self).same_playback(old(self)),
            final(self).same_clock(old(self)),
            final(self).viewport_height() == old(self).viewport_height(),
            final(self).policy() == old(self).policy(),
            final(self).queue() == old(self).queue(),
            final(self).state() == old(self).state(),
    {
        self.active_pane = match self.active_pane {
            ActivePane::Editor => ActivePane::Terminal,
            ActivePane::Terminal => ActivePane::Editor,
        };
    }

    /// Sets the number of lines that the editor window shows.
    pub fn set_viewport_height(&mut self, viewport_height: usize)
        requires
            old(self).wf(),
        ensures
            final(self).wf(),
            final(self).viewport_height() == viewport_height,
            final(self).same_playback(old(self)),
            final(self).same_clock(old(self)),
            final(self).active_pane() == old(self).active_pane(),
            final(self).policy() == old(self).policy(),
            final(self).queue() == old(self).queue(),
            final(self).state() == old(self).state(),
    {
        self.viewport_height = viewport_height;
    }

    /// The buffer of the file that is being played.
    pub fn get_buffer(&self) -> (r: &PlaybackBuffer)
        ensures
            *r == self.buffer(),
    {
        &self.buffer
    }

    /// The terminal transcript.
    pub fn get_transcript(&self) -> (r: &Transcript)
        ensures
            r@ == self.transcript(),
    {
        &self.transcript
    }

    /// The pane that has the focus.
    pub fn get_active_pane(&self) -> (r: ActivePane)
        ensures
            r == self.active_pane(),
    {
        self.active_pane
    }

    /// Whether the blinking cursor shows.
    pub fn is_cursor_visible(&self) -> (r: bool)
        ensures
            r == self.cursor_visible(),
    {
        self.cursor_visible
    }

    /// Where the engine stands.
    pub fn get_state(&self) -> (r: EngineState)
        ensures
            r == self.state(),
    {
        self.state
    }

    /// The index, within its commit, of the file that is being played.
    pub fn current_file_index(&self) -> (r: usize)
        ensures
            r == self.file_index(),
    {
        self.file_index
    }

    /// The number of steps of the script that have not been applied.
    pub fn remaining_steps(&self) -> (n: usize)
        requires
            self.wf(),
        ensures
            n == self.remaining().len(),
    {
        self.script.len() - self.position
    }
}

/// **The engine never leaves the duality.** Between any two calls the lines
/// of the buffer above the cursor are new lines, and the lines below it old
/// lines; and once no step remains, the buffer holds the new text.
pub proof fn law_engine_duality(engine: AnimationEngine)
    requires
        engine.wf(),
    ensures
        duality(
            engine.buffer()@,
            engine.buffer().snapshot().old_lines(),
            engine.buffer().snapshot().new_lines(),
        ),
        engine.remaining().len() == 0 ==> engine.buffer()@.lines
            == engine.buffer().snapshot().new_lines(),
{
}

/// The transcript after a command has begun on it.
pub open spec fn begun(t: TranscriptState, command: Seq<char>, typed: bool) -> TranscriptState {
    if typed {
        TranscriptState { lines: t.settled().push(crate::transcript::prompt()), pending: command }
    } else {
        TranscriptState {
            lines: t.settled().push(crate::transcript::prompt() + command),
            pending: Seq::empty(),
        }
    }
}

/// Whether `r` and `after` are what taking the next commit from `before`
/// gives, under the draw `entropy`.
pub open spec fn taken(before: CommitQueue, entropy: u64, r: Option<usize>, after: CommitQueue) -> bool {
    &&& after.wf()
    &&& after.order() == before.order()
    &&& after.count() == before.count()
    &&& after.looping() == before.looping()
    &&& r is None <==> before.round().len() == 0
    &&& r is None ==> after.waiting() == before.waiting()
    &&& r matches Some(commit) ==> {
        let round = before.round();
        let p = crate::order::pick_position(before.order(), round.len(), entropy);
        &&& 0 <= p < round.len()
        &&& commit == round[p]
        &&& commit < before.count()
        &&& after.waiting() == round.remove(p)
    }
}

} // verus!
