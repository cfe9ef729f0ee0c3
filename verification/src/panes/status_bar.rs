//! The status bar pane: the commit that is being played.

use vstd::prelude::*;
use crate::commit::CommitMetadata;
use crate::style::{colored, line_views, plain, span_views, SpanView, StyledSpan};
use crate::text::{chars_of, rows, split_lines, string_of};
use crate::theme::Theme;

verus! {

/// The status bar pane.
pub struct StatusBarPane;

/// The number of characters of a hash that the pane shows.
pub const SHORT_HASH_LEN: usize = 7;

/// Whether a character is white space.
pub open spec fn is_space(c: char) -> bool {
    let v = c as u32;
    ||| 0x09 <= v <= 0x0D
    ||| v == 0x20
    ||| v == 0x85
    ||| v == 0xA0
    ||| v == 0x1680
    ||| 0x2000 <= v <= 0x200A
    ||| v == 0x2028
    ||| v == 0x2029
    ||| v == 0x202F
    ||| v == 0x205F
    ||| v == 0x3000
}

/// Whether a line holds nothing but white space.
pub open spec fn is_blank(line: Seq<char>) -> bool {
    forall|i: int| 0 <= i < line.len() ==> is_space(#[trigger] line[i])
}

/// A line of text without the carriage return at its end, if it has one.
pub open spec fn without_return(line: Seq<char>) -> Seq<char> {
    if line.len() > 0 && line.last() == '\r' {
        line.drop_last()
    } else {
        line
    }
}

/// The lines of a message as the pane shows them, given the lines `lines`
/// that line feeds split the message into: a line that a line feed closes
/// loses the carriage return before it, and blank lines are left out.
/// `closed` says whether a line feed closes the last line too.
pub open spec fn message_lines(lines: Seq<Seq<char>>, closed: bool, theme: Theme) -> Seq<
    Seq<SpanView>,
>
    decreases lines.len(),
{
    if lines.len() == 0 {
        Seq::empty()
    } else {
        let before = message_lines(lines.drop_last(), true, theme);
        let line = if closed {
            without_return(lines.last())
        } else {
            lines.last()
        };
        if is_blank(line) {
            before
        } else {
            before.push(seq![colored(line, Some(theme.status_message), None, false)])
        }
    }
}

/// The first characters of a hash, `SHORT_HASH_LEN` at most.
pub open spec fn short_hash(hash: Seq<char>) -> Seq<char> {
    if hash.len() > SHORT_HASH_LEN {
        hash.take(SHORT_HASH_LEN as int)
    } else {
        hash
    }
}

/// The lines of the status bar for a commit: its hash, its author and its
/// date, each behind a label, and the lines of its message.
pub open spec fn status_lines(
    hash: Seq<char>,
    author: Seq<char>,
    date: Seq<char>,
    message: Seq<char>,
    theme: Theme,
) -> Seq<Seq<SpanView>> {
    seq![
        seq![plain("hash: "@), colored(short_hash(hash), Some(theme.status_hash), None, false)],
        seq![plain("author: "@), colored(author, Some(theme.status_author), None, false)],
        seq![plain("date: "@), colored(date, Some(theme.status_date), None, false)],
    ] + message_lines(
        split_lines(message),
        message.len() > 0 && message.last() == '\n',
        theme,
    )
}

/// The line that the panes show while no commit is loaded.
pub open spec fn no_commit_line(theme: Theme) -> Seq<Seq<SpanView>> {
    seq![seq![colored("No commit loaded"@, Some(theme.status_no_commit), None, false)]]
}

/// Whether a character is white space.
pub fn char_is_space(c: char) -> (r: bool)
    ensures
        r == is_space(c),
{
    let v: u32 = c as u32;
    (0x09 <= v && v <= 0x0D) || v == 0x20 || v == 0x85 || v == 0xA0 || v == 0x1680 || (0x2000 <= v
        && v <= 0x200A) || v == 0x2028 || v == 0x2029 || v == 0x202F || v == 0x205F || v == 0x3000
}

/// Whether a line holds nothing but white space.
pub fn line_is_blank(line: &Vec<char>) -> (r: bool)
    ensures
        r == is_blank(line@),
{
    let mut i: usize = 0;
    while i < line.len()
        invariant
            i <= line.len(),
            forall|k: int| 0 <= k < i ==> is_space(#[trigger] line@[k]),
        decreases line.len() - i,
    {
        if !char_is_space(line[i]) {
            return false;
        }
        i += 1;
    }
    true
}

/// A line made of a label and a value in the given color.
fn labelled(label: &str, value: String, color: crate::theme::Color) -> (r: Vec<StyledSpan>)
    ensures
        span_views(r@) == seq![plain(label@), colored(value@, Some(color), None, false)],
{
    let mut spans: Vec<StyledSpan> = Vec::new();
    spans.push(StyledSpan::raw(label.to_owned()));
    spans.push(StyledSpan::styled(value, Some(color), None, false));
    assert(span_views(spans@) == seq![plain(label@), colored(value@, Some(color), None, false)]);
    spans
}

impl StatusBarPane {
    /// The lines of the status bar: those of the commit, or a notice while
    /// no commit is loaded.
    pub fn render(&self, metadata: Option<&CommitMetadata>, theme: &Theme) -> (r: Vec<
        Vec<StyledSpan>,
    >)
        ensures
            line_views(r@) == match metadata {
                Some(meta) => status_lines(
                    meta.hash@,
                    meta.author@,
                    meta.date@,
                    meta.message@,
                    *theme,
                ),
                None => no_commit_line(*theme),
            },
    {
        let mut lines: Vec<Vec<StyledSpan>> = Vec::new();
        let meta = match metadata {
            Some(meta) => meta,
            None => {
                let mut spans: Vec<StyledSpan> = Vec::new();
                spans.push(
                    StyledSpan::styled(
                        String::from_str("No commit loaded"),
                        Some(theme.status_no_commit),
                        None,
                        false,
                    ),
                );
                assert(span_views(spans@) == no_commit_line(*theme)[0]);
                lines.push(spans);
                assert(line_views(lines@) == no_commit_line(*theme));
                return lines;
            },
        };
        let hash = chars_of(meta.hash.as_str());
        let mut short: Vec<char> = Vec::new();
        let mut k: usize = 0;
        while k < hash.len() && k < SHORT_HASH_LEN
            invariant
                k <= hash.len(),
                k <= SHORT_HASH_LEN,
                short@ == hash@.take(k as int),
            decreases hash.len() - k,
        {
            short.push(hash[k]);
            k += 1;
        }
        assert(short@ == short_hash(meta.hash@)) by {
            if hash.len() <= SHORT_HASH_LEN {
                assert(hash@.take(hash.len() as int) == hash@);
            }
        }
        let ghost head = seq![
            seq![
                plain("hash: "@),
                colored(short_hash(meta.hash@), Some(theme.status_hash), None, false),
            ],
            seq![plain("author: "@), colored(meta.author@, Some(theme.status_author), None, false)],
            seq![plain("date: "@), colored(meta.date@, Some(theme.status_date), None, false)],
        ];
        lines.push(labelled("hash: ", string_of(&short), theme.status_hash));
        lines.push(labelled("author: ", meta.author.clone(), theme.status_author));
        lines.push(labelled("date: ", meta.date.clone(), theme.status_date));
        assert(line_views(lines@) == head);

        let message = chars_of(meta.message.as_str());
        let closed = message.len() > 0 && message[message.len() - 1] == '\n';
        let message_rows = crate::text::lines_of(meta.message.as_str());
        let ghost all = rows(message_rows@);
        let n = message_rows.len();
        if n == 0 {
            assert(head + message_lines(all, closed, *theme) == head);
            return lines;
        }
        let mut i: usize = 0;
        assert(all.take(0) == Seq::<Seq<char>>::empty());
        assert(head + message_lines(all.take(0), true, *theme) == head);
        while i < n - 1
            invariant
                i <= n - 1,
                n == message_rows.len(),
                all == rows(message_rows@),
                line_views(lines@) == head + message_lines(all.take(i as int), true, *theme),
            decreases n - i,
        {
            proof {
                assert(all.take(i + 1).drop_last() == all.take(i as int));
                assert(all.take(i + 1).last() == message_rows@[i as int]@);
            }
            self.push_message_line(
                &mut lines,
                &message_rows[i],
                true,
                theme,
                Ghost(head),
                Ghost(all.take(i as int)),
            );
            assert(all.take(i as int).push(message_rows@[i as int]@) == all.take(i + 1));
            i += 1;
        }
        proof {
            assert(all.drop_last() == all.take(n - 1));
            assert(all.last() == message_rows@[n - 1]@);
        }
        self.push_message_line(
            &mut lines,
            &message_rows[n - 1],
            closed,
            theme,
            Ghost(head),
            Ghost(all.take(n - 1)),
        );
        assert(all.take(n - 1).push(message_rows@[n - 1]@) == all);
        lines
    }

    /// Appends a line of the message to the lines of the pane, unless the
    /// line is blank.
    fn push_message_line(
        &self,
        lines: &mut Vec<Vec<StyledSpan>>,
        row: &Vec<char>,
        closed: bool,
        theme: &Theme,
        Ghost(head): Ghost<Seq<Seq<SpanView>>>,
        Ghost(before): Ghost<Seq<Seq<char>>>,
    )
        requires
            line_views(old(lines)@) == head + message_lines(before, true, *theme),
        ensures
            line_views(final(lines)@) == head + message_lines(before.push(row@), closed, *theme),
    {
        let strip = closed && row.len() > 0 && row[row.len() - 1] == '\r';
        let end: usize = if strip {
            row.len() - 1
        } else {
            row.len()
        };
        let mut shown: Vec<char> = Vec::new();
        let mut j: usize = 0;
        while j < end
            invariant
                j <= end,
                end <= row.len(),
                shown@ == row@.take(j as int),
            decreases end - j,
        {
            shown.push(row[j]);
            j += 1;
        }
        proof {
            if !strip {
                assert(row@.take(row.len() as int) == row@);
            }
            assert(shown@ == if closed {
                without_return(row@)
            } else {
                row@
            });
        }
        let ghost start = line_views(lines@);
        let ghost line = seq![colored(shown@, Some(theme.status_message), None, false)];
        let blank = line_is_blank(&shown);
        if !blank {
            let mut spans: Vec<StyledSpan> = Vec::new();
            spans.push(
                StyledSpan::styled(string_of(&shown), Some(theme.status_message), None, false),
            );
            assert(span_views(spans@) == line);
            lines.push(spans);
            assert(line_views(lines@) == start.push(line));
        }
        proof {
            let all = before.push(row@);
            assert(all.drop_last() == before);
            assert(all.last() == row@);
            if !blank {
                assert(start.push(line) == head + message_lines(before, true, *theme).push(line));
            }
        }
    }
}

} // verus!
