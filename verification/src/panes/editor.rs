//! The editor pane: the visible lines of the playback buffer, each colored
//! from the highlight spans of the snapshot that it belongs to.

use vstd::prelude::*;
use crate::engine::{ActivePane, AnimationEngine};
use crate::style::{
    char_text, colored, line_views, line_width, plain, span_views, spans_width, SpanView,
    StyledSpan,
};
use crate::syntax::{HighlightSpan, TokenType};
use crate::text::{
    byte_len, char_len_utf8, decimal, decimal_of, push_chars, push_spaces, right_aligned, spaces,
    string_of, utf8_len, wide_byte_len,
};
use crate::theme::{
    apply_opacity, blended, faded_parts, line_distance, token_color, Color, Opacity, Theme,
};

verus! {

/// The editor pane.
pub struct EditorPane;

/// The old-text line that stands in line `line_num` of the buffer if that
/// line lies below the cursor; the line itself otherwise.
pub open spec fn target_line(line_num: int, cursor_line: int, line_offset: int) -> int {
    if line_num > cursor_line {
        if line_num - line_offset >= 0 {
            line_num - line_offset
        } else {
            0
        }
    } else {
        line_num
    }
}

/// The entry of a line table for `target`: the last entry where the table is
/// too short, and 0 where it is empty.
pub open spec fn table_entry(table: Seq<usize>, target: int) -> int {
    if 0 <= target < table.len() {
        table[target] as int
    } else if table.len() > 0 {
        table.last() as int
    } else {
        0
    }
}

/// The spans that overlap the byte range `from..to`, in order, each as its
/// start, its end and its kind.
pub open spec fn overlapping(highlights: Seq<HighlightSpan>, from: int, to: int) -> Seq<
    (usize, usize, TokenType),
>
    decreases highlights.len(),
{
    if highlights.len() == 0 {
        Seq::empty()
    } else {
        let h = highlights.last();
        let before = overlapping(highlights.drop_last(), from, to);
        if h.start < to && h.end > from {
            before.push((h.start, h.end, h.token_type))
        } else {
            before
        }
    }
}

/// The kind of the first span that holds the whole byte range
/// `start..end`, if a span does.
pub open spec fn first_containing(spans: Seq<(usize, usize, TokenType)>, start: int, end: int)
    -> Option<TokenType>
    decreases spans.len(),
{
    if spans.len() == 0 {
        None
    } else if start >= spans[0].0 && end <= spans[0].1 {
        Some(spans[0].2)
    } else {
        first_containing(spans.skip(1), start, end)
    }
}

/// The color of a character that occupies the bytes `start..end`: that of
/// the first span that holds it whole, else the color of plain text.
pub open spec fn char_color(
    spans: Seq<(usize, usize, TokenType)>,
    start: int,
    end: int,
    theme: Theme,
) -> Color {
    match first_containing(spans, start, end) {
        Some(token_type) => token_color(token_type, theme),
        None => theme.syntax_variable,
    }
}

impl EditorPane {
    /// The highlight spans and the line table that line `line_num` is
    /// colored from: those of the new text for the lines down to the cursor
    /// line, which counts among them, and those of the old text for the
    /// lines below it.
    pub fn select_highlights_and_offsets<'a>(
        &self,
        line_num: usize,
        cursor_line: usize,
        old_highlights: &'a [HighlightSpan],
        new_highlights: &'a [HighlightSpan],
        old_line_offsets: &'a [usize],
        new_line_offsets: &'a [usize],
    ) -> (r: (&'a [HighlightSpan], &'a [usize]))
        ensures
            line_num <= cursor_line ==> r.0@ == new_highlights@ && r.1@ == new_line_offsets@,
            line_num > cursor_line ==> r.0@ == old_highlights@ && r.1@ == old_line_offsets@,
    {
        if line_num <= cursor_line {
            (new_highlights, new_line_offsets)
        } else {
            (old_highlights, old_line_offsets)
        }
    }

    /// The byte offset at which line `line_num` of the buffer starts in the
    /// text that it is colored from. A line index beyond the table falls
    /// back to the last entry of the table.
    pub fn calculate_byte_offset(
        &self,
        line_num: usize,
        cursor_line: usize,
        line_offset: isize,
        line_offsets: &[usize],
    ) -> (r: usize)
        ensures
            r == table_entry(
                line_offsets@,
                target_line(line_num as int, cursor_line as int, line_offset as int),
            ),
    {
        let n = line_offsets.len();
        let target: i128 = if line_num > cursor_line {
            let shifted: i128 = (line_num as i128) - (line_offset as i128);
            if shifted >= 0 {
                shifted
            } else {
                0
            }
        } else {
            line_num as i128
        };
        if target < (n as i128) {
            line_offsets[target as usize]
        } else if n > 0 {
            line_offsets[n - 1]
        } else {
            0
        }
    }

    /// The spans that overlap the line of `line_len` bytes that starts at
    /// `byte_offset`.
    pub fn filter_line_highlights(
        &self,
        highlights: &[HighlightSpan],
        byte_offset: usize,
        line_len: usize,
    ) -> (r: Vec<(usize, usize, TokenType)>)
        ensures
            r@ == overlapping(highlights@, byte_offset as int, byte_offset + line_len),
    {
        let line_end: u128 = (byte_offset as u128) + (line_len as u128);
        let mut found: Vec<(usize, usize, TokenType)> = Vec::new();
        let mut i: usize = 0;
        assert(highlights@.take(0) == Seq::<HighlightSpan>::empty());
        while i < highlights.len()
            invariant
                i <= highlights.len(),
                line_end == byte_offset + line_len,
                found@ == overlapping(highlights@.take(i as int), byte_offset as int, line_end as int),
            decreases highlights.len() - i,
        {
            let h = highlights[i];
            proof {
                assert(highlights@.take(i + 1).drop_last() == highlights@.take(i as int));
                assert(highlights@.take(i + 1).last() == h);
            }
            if (h.start as u128) < line_end && h.end > byte_offset {
                found.push((h.start, h.end, h.token_type));
            }
            i += 1;
        }
        assert(highlights@.take(highlights.len() as int) == highlights@);
        found
    }

    /// The color of the character that occupies the bytes
    /// `char_byte_start..char_byte_end`.
    pub fn get_char_color(
        &self,
        char_byte_start: usize,
        char_byte_end: usize,
        line_highlights: &[(usize, usize, TokenType)],
        theme: &Theme,
    ) -> (r: Color)
        ensures
            r == char_color(line_highlights@, char_byte_start as int, char_byte_end as int, *theme),
    {
        let mut i: usize = 0;
        assert(line_highlights@.skip(0) == line_highlights@);
        while i < line_highlights.len()
            invariant
                i <= line_highlights.len(),
                first_containing(line_highlights@, char_byte_start as int, char_byte_end as int)
                    == first_containing(
                    line_highlights@.skip(i as int),
                    char_byte_start as int,
                    char_byte_end as int,
                ),
            decreases line_highlights.len() - i,
        {
            let h = line_highlights[i];
            proof {
                assert(line_highlights@.skip(i as int)[0] == h);
                assert(line_highlights@.skip(i as int).skip(1) == line_highlights@.skip(i + 1));
            }
            if char_byte_start >= h.0 && char_byte_end <= h.1 {
                return h.2.color(theme);
            }
            i += 1;
        }
        theme.syntax_variable
    }

    /// The spans that overlap the byte range `from..to`.
    fn filter_range(&self, highlights: &[HighlightSpan], from: u128, to: u128) -> (r: Vec<
        (usize, usize, TokenType),
    >)
        ensures
            r@ == overlapping(highlights@, from as int, to as int),
    {
        let mut found: Vec<(usize, usize, TokenType)> = Vec::new();
        let mut i: usize = 0;
        assert(highlights@.take(0) == Seq::<HighlightSpan>::empty());
        while i < highlights.len()
            invariant
                i <= highlights.len(),
                found@ == overlapping(highlights@.take(i as int), from as int, to as int),
            decreases highlights.len() - i,
        {
            let h = highlights[i];
            proof {
                assert(highlights@.take(i + 1).drop_last() == highlights@.take(i as int));
                assert(highlights@.take(i + 1).last() == h);
            }
            if (h.start as u128) < to && (h.end as u128) > from {
                found.push((h.start, h.end, h.token_type));
            }
            i += 1;
        }
        assert(highlights@.take(highlights.len() as int) == highlights@);
        found
    }

    /// The spans of a line, character by character, with the cursor where
    /// it shows.
    fn apply_highlights(
        &self,
        line_highlights: &Vec<(usize, usize, TokenType)>,
        byte_offset: usize,
        ctx: &HighlightContext,
    ) -> (r: Vec<StyledSpan>)
        ensures
            span_views(r@) == highlighted(ctx@, line_highlights@, byte_offset as int),
    {
        let line = ctx.line_content;
        let theme = ctx.theme;
        let ghost view = ctx@;
        let ghost marks = line_highlights@;
        let mut spans: Vec<StyledSpan> = Vec::new();
        let mut relative: u128 = 0;
        let mut i: usize = 0;
        assert(line@.take(0) == Seq::<char>::empty());
        assert(span_views(spans@) == char_spans(view, marks, byte_offset as int, 0));
        while i < line.len()
            invariant
                i <= line.len(),
                view == ctx@,
                line == ctx.line_content,
                theme == ctx.theme,
                marks == line_highlights@,
                relative == byte_len(line@.take(i as int)),
                relative <= 4 * i,
                span_views(spans@) == char_spans(view, marks, byte_offset as int, i as int),
            decreases line.len() - i,
        {
            let ch = line[i];
            let start: u128 = (byte_offset as u128) + relative;
            let end: u128 = start + (char_len_utf8(ch) as u128);
            proof {
                assert(line@.take(i + 1).drop_last() == line@.take(i as int));
                assert(line@.take(i + 1).last() == ch);
                if end > usize::MAX {
                    lemma_no_span_beyond(marks, start as int, end as int);
                }
            }
            relative = relative + (char_len_utf8(ch) as u128);
            let token = if end <= (usize::MAX as u128) {
                self.get_char_color(start as usize, end as usize, line_highlights.as_slice(), theme)
            } else {
                theme.syntax_variable
            };
            let background = if ctx.is_cursor_line {
                theme.editor_cursor_line_bg
            } else {
                theme.background_right
            };
            let color = apply_opacity(token, ctx.distance_opacity, background);
            let span = if ctx.show_cursor && i == ctx.cursor_col {
                StyledSpan::styled(
                    char_text(ch),
                    Some(theme.editor_cursor_char_fg),
                    Some(theme.editor_cursor_char_bg),
                    true,
                )
            } else if ctx.is_cursor_line {
                StyledSpan::styled(
                    char_text(ch),
                    Some(color),
                    Some(theme.editor_cursor_line_bg),
                    false,
                )
            } else {
                StyledSpan::styled(char_text(ch), Some(color), None, false)
            };
            let ghost before = span_views(spans@);
            assert(span@ == char_span(view, marks, byte_offset as int, i as int));
            spans.push(span);
            assert(span_views(spans@) == before.push(
                char_span(view, marks, byte_offset as int, i as int),
            ));
            i += 1;
        }
        let ghost typed = span_views(spans@);
        if ctx.show_cursor && ctx.cursor_col >= line.len() {
            let block = StyledSpan::styled(
                char_text(' '),
                Some(theme.editor_cursor_char_fg),
                Some(theme.editor_cursor_char_bg),
                true,
            );
            spans.push(block);
            assert(span_views(spans@) == typed + seq![cursor_block(*theme)]);
        } else {
            assert(typed + Seq::<SpanView>::empty() == typed);
        }
        spans
    }

    /// The spans of a line of the buffer: the line colored from the
    /// highlight set that its place relative to the cursor selects.
    pub fn highlight_line(&self, ctx: &HighlightContext) -> (r: Vec<StyledSpan>)
        ensures
            span_views(r@) == line_spans(ctx@),
    {
        let (highlights, line_offsets) = self.select_highlights_and_offsets(
            ctx.line_num,
            ctx.cursor_line,
            ctx.old_highlights,
            ctx.new_highlights,
            ctx.old_line_offsets,
            ctx.new_line_offsets,
        );
        let byte_offset = self.calculate_byte_offset(
            ctx.line_num,
            ctx.cursor_line,
            ctx.line_offset,
            line_offsets,
        );
        let line_len = wide_byte_len(ctx.line_content);
        let line_highlights = self.filter_range(
            highlights,
            byte_offset as u128,
            (byte_offset as u128) + line_len,
        );
        self.apply_highlights(&line_highlights, byte_offset, ctx)
    }

    /// The span that shows the number of a line, right-aligned in `width`
    /// columns and followed by a space.
    pub fn render_line_number(
        &self,
        line_num: usize,
        is_cursor_line: bool,
        width: usize,
        theme: &Theme,
        distance_opacity: Opacity,
    ) -> (r: StyledSpan)
        ensures
            r@ == line_number_span(
                line_num as int,
                is_cursor_line,
                width as nat,
                *theme,
                distance_opacity.parts(),
            ),
    {
        let digits = decimal_of((line_num as u128) + 1);
        let mut text: Vec<char> = Vec::new();
        if digits.len() < width {
            push_spaces(&mut text, width - digits.len());
        }
        push_chars(&mut text, &digits);
        text.push(' ');
        assert(text@ == right_aligned(decimal((line_num + 1) as nat), width as nat).push(' ')) by {
            assert(Seq::<char>::empty() + digits@ == digits@);
        }
        if is_cursor_line {
            StyledSpan::styled(
                string_of(&text),
                Some(theme.editor_line_number_cursor),
                Some(theme.editor_cursor_line_bg),
                true,
            )
        } else {
            let color = apply_opacity(
                theme.editor_line_number,
                distance_opacity,
                theme.background_right,
            );
            StyledSpan::styled(string_of(&text), Some(color), None, false)
        }
    }

    /// The spans of one line of the pane: padding, the line number, a
    /// separator, the colored text of the line, and padding again. The
    /// cursor line has its own background, out to the right edge of the
    /// pane.
    pub fn build_line(
        &self,
        line_content: &Vec<char>,
        line_num: usize,
        line_num_width: usize,
        content_width: usize,
        engine: &AnimationEngine,
        theme: &Theme,
    ) -> (r: Vec<StyledSpan>)
        ensures
            span_views(r@) == built_line(
                *engine,
                *theme,
                line_content@,
                line_num as int,
                line_num_width as nat,
                content_width as int,
            ),
    {
        let buffer = engine.get_buffer();
        let snapshot = buffer.diff();
        let cursor_line = buffer.cursor_line();
        let is_cursor_line = line_num == cursor_line;
        let distance_opacity = Opacity::at_distance(line_num, cursor_line);
        let mut spans: Vec<StyledSpan> = Vec::new();
        let ghost expected = line_frame(
            *engine,
            *theme,
            line_content@,
            line_num as int,
            line_num_width as nat,
        );

        spans.push(self.padding(is_cursor_line, theme));
        spans.push(
            self.render_line_number(line_num, is_cursor_line, line_num_width, theme, distance_opacity),
        );
        let separator = if is_cursor_line {
            StyledSpan::styled(
                String::from_str("  "),
                Some(theme.editor_separator),
                Some(theme.editor_cursor_line_bg),
                false,
            )
        } else {
            let color = apply_opacity(
                theme.editor_separator,
                distance_opacity,
                theme.background_right,
            );
            StyledSpan::styled(String::from_str("  "), Some(color), None, false)
        };
        spans.push(separator);

        let show_cursor = is_cursor_line && engine.is_cursor_visible() && match engine.get_active_pane() {
            ActivePane::Editor => true,
            ActivePane::Terminal => false,
        };
        let ctx = HighlightContext {
            line_content,
            line_num,
            is_cursor_line,
            show_cursor,
            cursor_col: buffer.cursor_col(),
            cursor_line,
            old_highlights: snapshot.old_spans().as_slice(),
            new_highlights: snapshot.new_spans().as_slice(),
            old_line_offsets: snapshot.old_offsets().as_slice(),
            new_line_offsets: snapshot.new_offsets().as_slice(),
            line_offset: buffer.line_offset(),
            theme,
            distance_opacity,
        };
        assert(ctx@ == line_context(*engine, *theme, line_content@, line_num as int));
        let ghost head = span_views(spans@);
        let mut body = self.highlight_line(&ctx);
        let ghost colored_text = span_views(body@);
        spans.append(&mut body);
        assert(span_views(spans@) == head + colored_text);
        spans.push(self.padding(is_cursor_line, theme));
        assert(span_views(spans@) == expected);

        if is_cursor_line {
            match spans_width(&spans) {
                Some(current_width) => {
                    if current_width < content_width {
                        let mut fill: Vec<char> = Vec::new();
                        push_spaces(&mut fill, content_width - current_width);
                        assert(fill@ == spaces((content_width - current_width) as nat)) by {
                            assert(Seq::<char>::empty() + spaces(
                                (content_width - current_width) as nat,
                            ) == spaces((content_width - current_width) as nat));
                        }
                        spans.push(
                            StyledSpan::styled(
                                string_of(&fill),
                                None,
                                Some(theme.editor_cursor_line_bg),
                                false,
                            ),
                        );
                        assert(span_views(spans@) == expected.push(
                            colored(
                                spaces((content_width - line_width(expected)) as nat),
                                None,
                                Some(theme.editor_cursor_line_bg),
                                false,
                            ),
                        ));
                    }
                },
                None => {},
            }
        }
        spans
    }

    /// The padding at both ends of a line.
    fn padding(&self, is_cursor_line: bool, theme: &Theme) -> (r: StyledSpan)
        ensures
            r@ == line_padding(is_cursor_line, *theme),
    {
        if is_cursor_line {
            StyledSpan::styled(String::from_str("  "), None, Some(theme.editor_cursor_line_bg), false)
        } else {
            StyledSpan::raw(String::from_str("  "))
        }
    }

    /// The lines that the pane shows in an area of `width` columns and
    /// `height` rows: the lines of the buffer from the scroll offset on, as
    /// many as fit between the top and the bottom padding.
    pub fn render(&self, width: u16, height: u16, engine: &AnimationEngine, theme: &Theme) -> (r:
        Vec<Vec<StyledSpan>>)
        ensures
            line_views(r@) == rendered(*engine, *theme, width as int, height as int),
    {
        let content_height: usize = if height >= 2 {
            (height - 2) as usize
        } else {
            0
        };
        let content_width: usize = width as usize;
        let buffer = engine.get_buffer();
        let scroll_offset = buffer.scroll_offset();
        let total = buffer.line_count();
        let digits = decimal_of(total as u128).len();
        let line_num_width: usize = if digits > 3 {
            digits
        } else {
            3
        };
        let count: usize = if scroll_offset >= total {
            0
        } else if total - scroll_offset < content_height {
            total - scroll_offset
        } else {
            content_height
        };
        let ghost expected = rendered(*engine, *theme, width as int, height as int);
        let mut lines: Vec<Vec<StyledSpan>> = Vec::new();
        let mut i: usize = 0;
        assert(expected.len() == count);
        while i < count
            invariant
                i <= count,
                count > 0 ==> scroll_offset + count <= total,
                total == engine.buffer()@.lines.len(),
                *buffer == engine.buffer(),
                scroll_offset == engine.buffer().scroll(),
                content_width == width,
                line_num_width == number_width(total as nat),
                expected == rendered(*engine, *theme, width as int, height as int),
                expected.len() == count,
                line_views(lines@) == expected.take(i as int),
            decreases count - i,
        {
            let line_num = scroll_offset + i;
            let line = self.build_line(
                buffer.line(line_num),
                line_num,
                line_num_width,
                content_width,
                engine,
                theme,
            );
            let ghost before = line_views(lines@);
            let ghost shown = span_views(line@);
            assert(shown == expected[i as int]);
            lines.push(line);
            assert(line_views(lines@) == before.push(shown));
            assert(expected.take(i + 1) == expected.take(i as int).push(expected[i as int]));
            i += 1;
        }
        assert(expected.take(count as int) == expected);
        lines
    }
}

/// The context in which line `line_num` of the buffer of `engine` is
/// colored.
pub open spec fn line_context(
    engine: AnimationEngine,
    theme: Theme,
    line: Seq<char>,
    line_num: int,
) -> LineContext {
    let state = engine.buffer()@;
    let snapshot = engine.buffer().snapshot();
    let is_cursor_line = line_num == state.cursor_line;
    LineContext {
        line,
        line_num,
        is_cursor_line,
        show_cursor: is_cursor_line && engine.cursor_visible() && engine.active_pane()
            == ActivePane::Editor,
        cursor_col: state.cursor_col,
        cursor_line: state.cursor_line,
        old_highlights: snapshot.old_highlights(),
        new_highlights: snapshot.new_highlights(),
        old_line_offsets: snapshot.old_line_offsets(),
        new_line_offsets: snapshot.new_line_offsets(),
        line_offset: state.line_offset,
        theme,
        parts: faded_parts(line_distance(line_num, state.cursor_line)),
    }
}

/// The padding at both ends of a line.
pub open spec fn line_padding(is_cursor_line: bool, theme: Theme) -> SpanView {
    if is_cursor_line {
        colored("  "@, None, Some(theme.editor_cursor_line_bg), false)
    } else {
        plain("  "@)
    }
}

/// The separator between the number and the text of a line.
pub open spec fn line_separator(is_cursor_line: bool, theme: Theme, parts: int) -> SpanView {
    if is_cursor_line {
        colored("  "@, Some(theme.editor_separator), Some(theme.editor_cursor_line_bg), false)
    } else {
        colored(
            "  "@,
            Some(blended(theme.editor_separator, parts, theme.background_right)),
            None,
            false,
        )
    }
}

/// The spans of a line of the pane before the cursor line is filled out to
/// the right edge.
pub open spec fn line_frame(
    engine: AnimationEngine,
    theme: Theme,
    line: Seq<char>,
    line_num: int,
    line_num_width: nat,
) -> Seq<SpanView> {
    let ctx = line_context(engine, theme, line, line_num);
    seq![
        line_padding(ctx.is_cursor_line, theme),
        line_number_span(line_num, ctx.is_cursor_line, line_num_width, theme, ctx.parts),
        line_separator(ctx.is_cursor_line, theme, ctx.parts),
    ] + line_spans(ctx) + seq![line_padding(ctx.is_cursor_line, theme)]
}

/// The spans of a line of the pane.
pub open spec fn built_line(
    engine: AnimationEngine,
    theme: Theme,
    line: Seq<char>,
    line_num: int,
    line_num_width: nat,
    content_width: int,
) -> Seq<SpanView> {
    let frame = line_frame(engine, theme, line, line_num, line_num_width);
    if line_num == engine.buffer()@.cursor_line && line_width(frame) < content_width {
        frame.push(
            colored(
                spaces((content_width - line_width(frame)) as nat),
                None,
                Some(theme.editor_cursor_line_bg),
                false,
            ),
        )
    } else {
        frame
    }
}

/// The width of the column of line numbers for a buffer of `total` lines:
/// that of the largest number, and three columns at least.
pub open spec fn number_width(total: nat) -> nat {
    if decimal(total).len() > 3 {
        decimal(total).len()
    } else {
        3
    }
}

/// The number of lines that the pane shows.
pub open spec fn shown_count(engine: AnimationEngine, height: int) -> int {
    let total = engine.buffer()@.lines.len() as int;
    let scroll = engine.buffer().scroll();
    let room = if height >= 2 {
        height - 2
    } else {
        0
    };
    if scroll >= total {
        0
    } else if total - scroll < room {
        total - scroll
    } else {
        room
    }
}

/// The lines that the pane shows.
pub open spec fn rendered(engine: AnimationEngine, theme: Theme, width: int, height: int) -> Seq<
    Seq<SpanView>,
> {
    let state = engine.buffer()@;
    let scroll = engine.buffer().scroll();
    Seq::new(
        shown_count(engine, height) as nat,
        |i: int|
            built_line(
                engine,
                theme,
                state.lines[scroll + i],
                scroll + i,
                number_width(state.lines.len()),
                width,
            ),
    )
}

/// What the coloring of one line of the buffer needs to know.
pub struct HighlightContext<'a> {
    pub line_content: &'a Vec<char>,
    pub line_num: usize,
    pub is_cursor_line: bool,
    pub show_cursor: bool,
    pub cursor_col: usize,
    pub cursor_line: usize,
    pub old_highlights: &'a [HighlightSpan],
    pub new_highlights: &'a [HighlightSpan],
    pub old_line_offsets: &'a [usize],
    pub new_line_offsets: &'a [usize],
    pub line_offset: isize,
    pub theme: &'a Theme,
    pub distance_opacity: Opacity,
}

/// The context of a line as contracts see it.
pub struct LineContext {
    pub line: Seq<char>,
    pub line_num: int,
    pub is_cursor_line: bool,
    pub show_cursor: bool,
    pub cursor_col: int,
    pub cursor_line: int,
    pub old_highlights: Seq<HighlightSpan>,
    pub new_highlights: Seq<HighlightSpan>,
    pub old_line_offsets: Seq<usize>,
    pub new_line_offsets: Seq<usize>,
    pub line_offset: int,
    pub theme: Theme,
    pub parts: int,
}

impl<'a> View for HighlightContext<'a> {
    type V = LineContext;

    open spec fn view(&self) -> LineContext {
        LineContext {
            line: self.line_content@,
            line_num: self.line_num as int,
            is_cursor_line: self.is_cursor_line,
            show_cursor: self.show_cursor,
            cursor_col: self.cursor_col as int,
            cursor_line: self.cursor_line as int,
            old_highlights: self.old_highlights@,
            new_highlights: self.new_highlights@,
            old_line_offsets: self.old_line_offsets@,
            new_line_offsets: self.new_line_offsets@,
            line_offset: self.line_offset as int,
            theme: *self.theme,
            parts: self.distance_opacity.parts(),
        }
    }
}

/// The background that the characters of a line fade into.
pub open spec fn fade_background(ctx: LineContext) -> Color {
    if ctx.is_cursor_line {
        ctx.theme.editor_cursor_line_bg
    } else {
        ctx.theme.background_right
    }
}

/// The span of the character `idx` of a line, where `spans` are the spans
/// that overlap the line and `byte_offset` is the byte at which the line
/// starts. A character is colored as a whole, by the byte range that it
/// occupies.
pub open spec fn char_span(
    ctx: LineContext,
    spans: Seq<(usize, usize, TokenType)>,
    byte_offset: int,
    idx: int,
) -> SpanView {
    let ch = ctx.line[idx];
    let start = byte_offset + byte_len(ctx.line.take(idx));
    let end = start + utf8_len(ch);
    let color = blended(char_color(spans, start, end, ctx.theme), ctx.parts, fade_background(ctx));
    if ctx.show_cursor && idx == ctx.cursor_col {
        colored(
            seq![ch],
            Some(ctx.theme.editor_cursor_char_fg),
            Some(ctx.theme.editor_cursor_char_bg),
            true,
        )
    } else if ctx.is_cursor_line {
        colored(seq![ch], Some(color), Some(ctx.theme.editor_cursor_line_bg), false)
    } else {
        colored(seq![ch], Some(color), None, false)
    }
}

/// The spans of the first `n` characters of a line.
pub open spec fn char_spans(
    ctx: LineContext,
    spans: Seq<(usize, usize, TokenType)>,
    byte_offset: int,
    n: int,
) -> Seq<SpanView>
    decreases n,
{
    if n <= 0 {
        Seq::empty()
    } else {
        char_spans(ctx, spans, byte_offset, n - 1).push(char_span(ctx, spans, byte_offset, n - 1))
    }
}

/// The block that shows the cursor behind the end of a line.
pub open spec fn cursor_block(theme: Theme) -> SpanView {
    colored(seq![' '], Some(theme.editor_cursor_char_fg), Some(theme.editor_cursor_char_bg), true)
}

/// The spans of a whole line: those of its characters, and the cursor block
/// where the cursor shows behind them.
pub open spec fn highlighted(
    ctx: LineContext,
    spans: Seq<(usize, usize, TokenType)>,
    byte_offset: int,
) -> Seq<SpanView> {
    char_spans(ctx, spans, byte_offset, ctx.line.len() as int) + if ctx.show_cursor
        && ctx.cursor_col >= ctx.line.len() {
        seq![cursor_block(ctx.theme)]
    } else {
        Seq::empty()
    }
}

/// The highlight spans that a line is colored from.
pub open spec fn selected_highlights(ctx: LineContext) -> Seq<HighlightSpan> {
    if ctx.line_num <= ctx.cursor_line {
        ctx.new_highlights
    } else {
        ctx.old_highlights
    }
}

/// The line table that a line is placed by.
pub open spec fn selected_offsets(ctx: LineContext) -> Seq<usize> {
    if ctx.line_num <= ctx.cursor_line {
        ctx.new_line_offsets
    } else {
        ctx.old_line_offsets
    }
}

/// The byte at which a line starts in the text that it is colored from.
pub open spec fn line_byte_offset(ctx: LineContext) -> int {
    table_entry(selected_offsets(ctx), target_line(ctx.line_num, ctx.cursor_line, ctx.line_offset))
}

/// The spans of a line of the buffer.
pub open spec fn line_spans(ctx: LineContext) -> Seq<SpanView> {
    let from = line_byte_offset(ctx);
    highlighted(
        ctx,
        overlapping(selected_highlights(ctx), from, from + byte_len(ctx.line)),
        from,
    )
}

/// The span that shows the number of a line.
pub open spec fn line_number_span(
    line_num: int,
    is_cursor_line: bool,
    width: nat,
    theme: Theme,
    parts: int,
) -> SpanView {
    let text = right_aligned(decimal((line_num + 1) as nat), width).push(' ');
    if is_cursor_line {
        colored(
            text,
            Some(theme.editor_line_number_cursor),
            Some(theme.editor_cursor_line_bg),
            true,
        )
    } else {
        colored(
            text,
            Some(blended(theme.editor_line_number, parts, theme.background_right)),
            None,
            false,
        )
    }
}

/// No span holds a byte range that ends beyond the largest offset.
pub proof fn lemma_no_span_beyond(spans: Seq<(usize, usize, TokenType)>, start: int, end: int)
    requires
        end > usize::MAX,
    ensures
        first_containing(spans, start, end) is None,
    decreases spans.len(),
{
    if spans.len() > 0 {
        lemma_no_span_beyond(spans.skip(1), start, end);
    }
}

/// **The source of the highlights.** A line down to the cursor line is
/// colored from the new set alone: whatever the old spans and the old line
/// table are, its spans are the same. A line below the cursor line is
/// colored from the old set alone.
pub proof fn law_highlight_source(a: LineContext, b: LineContext)
    requires
        a.line == b.line,
        a.line_num == b.line_num,
        a.is_cursor_line == b.is_cursor_line,
        a.show_cursor == b.show_cursor,
        a.cursor_col == b.cursor_col,
        a.cursor_line == b.cursor_line,
        a.line_offset == b.line_offset,
        a.theme == b.theme,
        a.parts == b.parts,
        a.line_num <= a.cursor_line ==> a.new_highlights == b.new_highlights
            && a.new_line_offsets == b.new_line_offsets,
        a.line_num > a.cursor_line ==> a.old_highlights == b.old_highlights && a.old_line_offsets
            == b.old_line_offsets,
    ensures
        line_spans(a) == line_spans(b),
        a.line_num <= a.cursor_line ==> selected_highlights(a) == a.new_highlights
            && selected_offsets(a) == a.new_line_offsets,
        a.line_num > a.cursor_line ==> selected_highlights(a) == a.old_highlights
            && selected_offsets(a) == a.old_line_offsets,
{
    let from = line_byte_offset(a);
    let marks = overlapping(selected_highlights(a), from, from + byte_len(a.line));
    lemma_char_spans_agree(a, b, marks, from, a.line.len() as int);
}

/// The spans of the characters of a line depend on the highlight sets only
/// through the spans that overlap the line.
pub proof fn lemma_char_spans_agree(
    a: LineContext,
    b: LineContext,
    spans: Seq<(usize, usize, TokenType)>,
    byte_offset: int,
    n: int,
)
    requires
        a.line == b.line,
        a.is_cursor_line == b.is_cursor_line,
        a.show_cursor == b.show_cursor,
        a.cursor_col == b.cursor_col,
        a.theme == b.theme,
        a.parts == b.parts,
    ensures
        char_spans(a, spans, byte_offset, n) == char_spans(b, spans, byte_offset, n),
    decreases n,
{
    if n > 0 {
        lemma_char_spans_agree(a, b, spans, byte_offset, n - 1);
    }
}

} // verus!
