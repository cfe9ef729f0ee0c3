//! The terminal pane: the last lines of the transcript.

use vstd::prelude::*;
use crate::engine::{ActivePane, AnimationEngine};
use crate::style::{char_text, colored, line_views, span_views, SpanView, StyledSpan};
use crate::text::string_of;
use crate::theme::Theme;

verus! {

/// The terminal pane.
pub struct TerminalPane;

/// Whether a line of the transcript is a command line: it opens with the
/// prompt.
pub open spec fn is_command(line: Seq<char>) -> bool {
    line.len() >= 2 && line[0] == '~' && line[1] == ' '
}

/// The spans of one line of the transcript. A command is shown in the color
/// of commands, with the cursor behind it where the cursor shows; output is
/// shown in the color of output.
pub open spec fn terminal_line(line: Seq<char>, show_cursor: bool, theme: Theme) -> Seq<SpanView> {
    if is_command(line) {
        if show_cursor {
            seq![
                colored(line, Some(theme.terminal_command), None, false),
                colored(
                    seq![' '],
                    Some(theme.terminal_cursor_fg),
                    Some(theme.terminal_cursor_bg),
                    true,
                ),
            ]
        } else {
            seq![colored(line, Some(theme.terminal_command), None, false)]
        }
    } else {
        seq![colored(line, Some(theme.terminal_output), None, false)]
    }
}

/// The index of the first line of the transcript that the pane shows.
pub open spec fn first_shown(total: int, height: int) -> int {
    let room = if height >= 2 {
        height - 2
    } else {
        0
    };
    if total > room {
        total - room
    } else {
        0
    }
}

/// The lines that the pane shows: the last lines of the transcript, as many
/// as fit between the top and the bottom padding, or one empty line for an
/// empty transcript. The cursor shows on the last line while the terminal
/// has the focus.
pub open spec fn terminal_rendered(engine: AnimationEngine, theme: Theme, height: int) -> Seq<
    Seq<SpanView>,
> {
    let lines = engine.transcript().lines;
    let total = lines.len() as int;
    if total == 0 {
        seq![Seq::empty()]
    } else {
        let start = first_shown(total, height);
        Seq::new(
            (total - start) as nat,
            |i: int|
                terminal_line(
                    lines[start + i],
                    start + i == total - 1 && engine.cursor_visible() && engine.active_pane()
                        == ActivePane::Terminal,
                    theme,
                ),
        )
    }
}

impl TerminalPane {
    /// The spans of one line of the transcript.
    fn build_line(&self, line: &Vec<char>, show_cursor: bool, theme: &Theme) -> (r: Vec<StyledSpan>)
        ensures
            span_views(r@) == terminal_line(line@, show_cursor, *theme),
    {
        let mut spans: Vec<StyledSpan> = Vec::new();
        if line.len() >= 2 && line[0] == '~' && line[1] == ' ' {
            spans.push(StyledSpan::styled(string_of(line), Some(theme.terminal_command), None, false));
            if show_cursor {
                spans.push(
                    StyledSpan::styled(
                        char_text(' '),
                        Some(theme.terminal_cursor_fg),
                        Some(theme.terminal_cursor_bg),
                        true,
                    ),
                );
            }
        } else {
            spans.push(StyledSpan::styled(string_of(line), Some(theme.terminal_output), None, false));
        }
        assert(span_views(spans@) == terminal_line(line@, show_cursor, *theme));
        spans
    }

    /// The lines that the pane shows in an area of `height` rows.
    pub fn render(&self, height: u16, engine: &AnimationEngine, theme: &Theme) -> (r: Vec<
        Vec<StyledSpan>,
    >)
        ensures
            line_views(r@) == terminal_rendered(*engine, *theme, height as int),
    {
        let content_height: usize = if height >= 2 {
            (height - 2) as usize
        } else {
            0
        };
        let transcript = engine.get_transcript();
        let total = transcript.line_count();
        let ghost expected = terminal_rendered(*engine, *theme, height as int);
        let mut lines: Vec<Vec<StyledSpan>> = Vec::new();
        if total == 0 {
            let empty: Vec<StyledSpan> = Vec::new();
            assert(span_views(empty@) == Seq::<SpanView>::empty());
            lines.push(empty);
            assert(line_views(lines@) == expected);
            return lines;
        }
        let start: usize = if total > content_height {
            total - content_height
        } else {
            0
        };
        let cursor_on = engine.is_cursor_visible() && match engine.get_active_pane() {
            ActivePane::Terminal => true,
            ActivePane::Editor => false,
        };
        let mut i: usize = start;
        assert(expected.len() == total - start);
        while i < total
            invariant
                start <= i <= total,
                total == engine.transcript().lines.len(),
                transcript@ == engine.transcript(),
                start == first_shown(total as int, height as int),
                cursor_on == (engine.cursor_visible() && engine.active_pane()
                    == ActivePane::Terminal),
                expected == terminal_rendered(*engine, *theme, height as int),
                expected.len() == total - start,
                line_views(lines@) == expected.take(i - start),
            decreases total - i,
        {
            let show_cursor = i == total - 1 && cursor_on;
            let line = self.build_line(transcript.line(i), show_cursor, theme);
            let ghost before = line_views(lines@);
            let ghost shown = span_views(line@);
            assert(shown == expected[i - start]);
            lines.push(line);
            assert(line_views(lines@) == before.push(shown));
            assert(expected.take(i + 1 - start) == expected.take(i - start).push(expected[i - start]));
            i += 1;
        }
        assert(expected.take(total - start) == expected);
        lines
    }
}

} // verus!
