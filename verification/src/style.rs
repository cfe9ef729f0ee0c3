//! Styled text: what the panes hand to the terminal.

use vstd::prelude::*;
use unicode_width::UnicodeWidthStr;
use crate::text::string_of;
use crate::theme::Color;

verus! {

/// A run of text with one style.
#[derive(Debug, PartialEq, Eq)]
pub struct StyledSpan {
    pub content: String,
    /// The foreground color, if the span sets one.
    pub fg: Option<Color>,
    /// The background color, if the span sets one.
    pub bg: Option<Color>,
    pub bold: bool,
}

/// A styled span as contracts see it.
pub struct SpanView {
    pub content: Seq<char>,
    pub fg: Option<Color>,
    pub bg: Option<Color>,
    pub bold: bool,
}

impl View for StyledSpan {
    type V = SpanView;

    open spec fn view(&self) -> SpanView {
        SpanView { content: self.content@, fg: self.fg, bg: self.bg, bold: self.bold }
    }
}

/// The spans of a line as contracts see them.
pub open spec fn span_views(spans: Seq<StyledSpan>) -> Seq<SpanView> {
    Seq::new(spans.len(), |i: int| spans[i]@)
}

/// The lines of a pane as contracts see them.
pub open spec fn line_views(lines: Seq<Vec<StyledSpan>>) -> Seq<Seq<SpanView>> {
    Seq::new(lines.len(), |i: int| span_views(lines[i]@))
}

/// Text without a style of its own.
pub open spec fn plain(content: Seq<char>) -> SpanView {
    SpanView { content, fg: None, bg: None, bold: false }
}

/// Text in the given colors.
pub open spec fn colored(content: Seq<char>, fg: Option<Color>, bg: Option<Color>, bold: bool) -> SpanView {
    SpanView { content, fg, bg, bold }
}

impl StyledSpan {
    /// Text without a style of its own.
    pub fn raw(content: String) -> (r: StyledSpan)
        ensures
            r@ == plain(content@),
    {
        StyledSpan { content, fg: None, bg: None, bold: false }
    }

    /// Text in the given colors.
    pub fn styled(content: String, fg: Option<Color>, bg: Option<Color>, bold: bool) -> (r:
        StyledSpan)
        ensures
            r@ == colored(content@, fg, bg, bold),
    {
        StyledSpan { content, fg, bg, bold }
    }
}

/// The number of terminal columns that a text takes when it is displayed.
pub uninterp spec fn display_width(text: Seq<char>) -> nat;

/// The displayed width of a text, from `UnicodeWidthStr::width` of the
/// `unicode_width` crate. The contract names the width.
#[verifier::external_body]
pub(crate) fn text_width(text: &str) -> (w: usize)
    ensures
        w == display_width(text@),
{
    text.width()
}

/// The displayed width of a line: the sum of the widths of its spans.
pub open spec fn line_width(spans: Seq<SpanView>) -> nat
    decreases spans.len(),
{
    if spans.len() == 0 {
        0
    } else {
        line_width(spans.drop_last()) + display_width(spans.last().content)
    }
}

/// The displayed width of a line, or `None` when it does not fit in `usize`.
pub fn spans_width(spans: &Vec<StyledSpan>) -> (r: Option<usize>)
    ensures
        match r {
            Some(w) => w == line_width(span_views(spans@)),
            None => line_width(span_views(spans@)) > usize::MAX,
        },
{
    let ghost views = span_views(spans@);
    let mut total: usize = 0;
    let mut i: usize = 0;
    assert(views.take(0) == Seq::<SpanView>::empty());
    while i < spans.len()
        invariant
            i <= spans.len(),
            views == span_views(spans@),
            total == line_width(views.take(i as int)),
        decreases spans.len() - i,
    {
        let w = text_width(spans[i].content.as_str());
        proof {
            assert(views.take(i + 1).drop_last() == views.take(i as int));
            assert(views.take(i + 1).last() == spans@[i as int]@);
            lemma_line_width_prefix(views, i + 1);
        }
        match total.checked_add(w) {
            Some(t) => {
                total = t;
            },
            None => {
                return None;
            },
        }
        i += 1;
    }
    assert(views.take(spans.len() as int) == views);
    Some(total)
}

/// The width of a prefix of a line never exceeds that of the line.
pub proof fn lemma_line_width_prefix(spans: Seq<SpanView>, n: int)
    requires
        0 <= n <= spans.len(),
    ensures
        line_width(spans.take(n)) <= line_width(spans),
    decreases spans.len() - n,
{
    if n == spans.len() {
        assert(spans.take(n) == spans);
    } else {
        lemma_line_width_prefix(spans, n + 1);
        assert(spans.take(n + 1).drop_last() == spans.take(n));
    }
}

/// The text of one character.
pub fn char_text(c: char) -> (r: String)
    ensures
        r@ == seq![c],
{
    let mut chars: Vec<char> = Vec::new();
    chars.push(c);
    string_of(&chars)
}

} // verus!
