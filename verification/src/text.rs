//! Text as sequences of characters: UTF-8 byte lengths, line splitting,
//! line-start offset tables and decimal rendering.

use vstd::prelude::*;

verus! {

/// Number of bytes that the UTF-8 encoding of `c` occupies.
pub open spec fn utf8_len(c: char) -> nat {
    if (c as u32) < 0x80 {
        1
    } else if (c as u32) < 0x800 {
        2
    } else if (c as u32) < 0x10000 {
        3
    } else {
        4
    }
}

/// Number of bytes that the UTF-8 encoding of `s` occupies.
pub open spec fn byte_len(s: Seq<char>) -> nat
    decreases s.len(),
{
    if s.len() == 0 {
        0
    } else {
        byte_len(s.drop_last()) + utf8_len(s.last())
    }
}

/// Number of bytes that the UTF-8 encoding of one character occupies.
pub fn char_len_utf8(c: char) -> (n: usize)
    ensures
        n == utf8_len(c),
        1 <= n <= 4,
{
    let v: u32 = c as u32;
    if v < 0x80 {
        1
    } else if v < 0x800 {
        2
    } else if v < 0x10000 {
        3
    } else {
        4
    }
}

/// The characters of a string slice, in order.
pub fn chars_of(s: &str) -> (r: Vec<char>)
    ensures
        r@ == s@,
{
    let mut r: Vec<char> = Vec::new();
    for c in it: s.chars()
        invariant
            r@ == it.seq().take(it.index() as int),
            it.seq() == s@,
    {
        r.push(c);
    }
    r
}

/// `String::push` appends one character to the end of the string.
pub assume_specification[ std::string::String::push ](s: &mut std::string::String, ch: char)
    ensures
        final(s)@ == old(s)@.push(ch),
;

/// The string made of the given characters, in order.
pub fn string_of(chars: &Vec<char>) -> (r: String)
    ensures
        r@ == chars@,
{
    let mut r = String::new();
    let mut i: usize = 0;
    while i < chars.len()
        invariant
            i <= chars.len(),
            r@ == chars@.take(i as int),
        decreases chars.len() - i,
    {
        r.push(chars[i]);
        i += 1;
        assert(chars@.take(i as int) == chars@.take(i - 1).push(chars@[i - 1]));
    }
    r
}

/// A copy of a line.
pub fn copy_line(line: &Vec<char>) -> (r: Vec<char>)
    ensures
        r@ == line@,
{
    let mut r: Vec<char> = Vec::new();
    let mut i: usize = 0;
    while i < line.len()
        invariant
            i <= line.len(),
            r@ == line@.take(i as int),
        decreases line.len() - i,
    {
        r.push(line[i]);
        i += 1;
    }
    r
}

/// Whether two character sequences are equal.
pub fn chars_eq(a: &Vec<char>, b: &Vec<char>) -> (r: bool)
    ensures
        r == (a@ == b@),
{
    if a.len() != b.len() {
        return false;
    }
    let mut i: usize = 0;
    while i < a.len()
        invariant
            i <= a.len(),
            a.len() == b.len(),
            a@.take(i as int) == b@.take(i as int),
        decreases a.len() - i,
    {
        if a[i] != b[i] {
            return false;
        }
        i += 1;
        assert(a@.take(i as int) == a@.take(i - 1).push(a@[i - 1]));
        assert(b@.take(i as int) == b@.take(i - 1).push(b@[i - 1]));
    }
    assert(a@ == a@.take(a.len() as int));
    assert(b@ == b@.take(b.len() as int));
    true
}

/// Byte length of a line, or `None` when it does not fit in `usize`.
pub fn line_byte_len(line: &Vec<char>) -> (r: Option<usize>)
    ensures
        match r {
            Some(n) => n == byte_len(line@),
            None => byte_len(line@) > usize::MAX,
        },
{
    let mut total: usize = 0;
    let mut i: usize = 0;
    while i < line.len()
        invariant
            i <= line.len(),
            total == byte_len(line@.take(i as int)),
        decreases line.len() - i,
    {
        let w = char_len_utf8(line[i]);
        proof {
            assert(line@.take(i + 1).drop_last() == line@.take(i as int));
            lemma_byte_len_prefix(line@, i + 1);
        }
        match total.checked_add(w) {
            Some(t) => {
                total = t;
            },
            None => {
                return None;
            },
        }
        i += 1;
    }
    assert(line@ == line@.take(line.len() as int));
    Some(total)
}

/// Byte length of a line.
pub fn wide_byte_len(line: &Vec<char>) -> (r: u128)
    ensures
        r == byte_len(line@),
        r <= 4 * line.len(),
{
    let mut total: u128 = 0;
    let mut i: usize = 0;
    while i < line.len()
        invariant
            i <= line.len(),
            total == byte_len(line@.take(i as int)),
            total <= 4 * i,
        decreases line.len() - i,
    {
        let w = char_len_utf8(line[i]);
        proof {
            assert(line@.take(i + 1).drop_last() == line@.take(i as int));
        }
        total = total + (w as u128);
        i += 1;
    }
    assert(line@ == line@.take(line.len() as int));
    total
}

/// The byte length of a prefix never exceeds that of the whole.
pub proof fn lemma_byte_len_prefix(s: Seq<char>, n: int)
    requires
        0 <= n <= s.len(),
    ensures
        byte_len(s.take(n)) <= byte_len(s),
    decreases s.len() - n,
{
    if n == s.len() {
        assert(s.take(n) == s);
    } else {
        lemma_byte_len_prefix(s, n + 1);
        assert(s.take(n + 1).drop_last() == s.take(n));
    }
}

/// Index of the first line feed in `s`, or `s.len()` when there is none.
pub open spec fn first_newline(s: Seq<char>) -> nat
    decreases s.len(),
{
    if s.len() == 0 || s[0] == '\n' {
        0
    } else {
        1 + first_newline(s.skip(1))
    }
}

/// Whether `s` holds no line feed.
pub open spec fn no_newline(s: Seq<char>) -> bool {
    forall|i: int| 0 <= i < s.len() ==> s[i] != '\n'
}

/// The lines of a text. Lines are separated by line feeds; a line feed at the
/// very end closes the last line and opens no further one, so the empty text
/// has no lines.
pub open spec fn split_lines(text: Seq<char>) -> Seq<Seq<char>>
    decreases text.len(),
{
    if text.len() == 0 {
        Seq::empty()
    } else {
        let n = first_newline(text);
        if n >= text.len() {
            seq![text]
        } else {
            seq![text.take(n as int)] + split_lines(text.skip(n as int + 1))
        }
    }
}

/// Byte offset at which line `i` starts in the text made of `lines`, each line
/// followed by a one-byte line feed.
pub open spec fn line_start(lines: Seq<Seq<char>>, i: int) -> nat
    decreases i,
{
    if i <= 0 {
        0
    } else {
        line_start(lines, i - 1) + byte_len(lines[i - 1]) + 1
    }
}

/// Whether `table` is the table of line-start byte offsets of `lines`: one
/// entry per line, the first of them 0.
pub open spec fn is_line_table(table: Seq<usize>, lines: Seq<Seq<char>>) -> bool {
    &&& table.len() == lines.len()
    &&& forall|i: int| 0 <= i < table.len() ==> table[i] == line_start(lines, i)
}

/// The first line feed lies within the text, and no line feed stands
/// before it.
pub proof fn lemma_first_newline_bounds(s: Seq<char>)
    ensures
        0 <= first_newline(s) <= s.len(),
        first_newline(s) < s.len() ==> s[first_newline(s) as int] == '\n',
        no_newline(s.take(first_newline(s) as int)),
    decreases s.len(),
{
    if s.len() == 0 || s[0] == '\n' {
    } else {
        lemma_first_newline_bounds(s.skip(1));
        let n = first_newline(s.skip(1)) as int;
        let t = s.take(n + 1);
        assert forall|i: int| 0 <= i < t.len() implies t[i] != '\n' by {
            if i > 0 {
                assert(s.skip(1).take(n)[i - 1] == s[i]);
            }
        }
    }
}

/// A line-feed-free prefix pushes the first line feed back by its length.
pub proof fn lemma_first_newline_after(a: Seq<char>, b: Seq<char>)
    requires
        no_newline(a),
    ensures
        first_newline(a + b) == a.len() + first_newline(b),
    decreases a.len(),
{
    if a.len() == 0 {
        assert(a + b == b);
    } else {
        assert((a + b)[0] == a[0]);
        assert((a + b).skip(1) == a.skip(1) + b);
        lemma_first_newline_after(a.skip(1), b);
    }
}

/// A line without line feed, followed by a line feed and more text, is the
/// first line of the whole.
pub proof fn lemma_split_lines_cons(line: Seq<char>, rest: Seq<char>)
    requires
        no_newline(line),
    ensures
        split_lines(line + seq!['\n'] + rest) == seq![line] + split_lines(rest),
{
    let text = line + seq!['\n'] + rest;
    lemma_first_newline_after(line, seq!['\n'] + rest);
    assert(text == line + (seq!['\n'] + rest));
    assert(first_newline(seq!['\n'] + rest) == 0);
    assert(text.take(line.len() as int) == line);
    assert(text.skip(line.len() as int + 1) == rest);
}

/// A non-empty text without line feed is its own single line.
pub proof fn lemma_split_lines_single(line: Seq<char>)
    requires
        no_newline(line),
        line.len() > 0,
    ensures
        split_lines(line) == seq![line],
{
    lemma_first_newline_after(line, Seq::empty());
    assert(line + Seq::<char>::empty() == line);
}

/// No line of a text holds a line feed.
pub proof fn lemma_split_lines_no_newline(text: Seq<char>)
    ensures
        forall|i: int| 0 <= i < split_lines(text).len() ==> no_newline(#[trigger] split_lines(text)[i]),
    decreases text.len(),
{
    if text.len() == 0 {
    } else {
        lemma_first_newline_bounds(text);
        let n = first_newline(text) as int;
        if n >= text.len() {
            assert(text.take(n) == text);
            assert(split_lines(text) == seq![text]);
        } else {
            lemma_split_lines_no_newline(text.skip(n + 1));
            let tail = split_lines(text.skip(n + 1));
            assert(split_lines(text) == seq![text.take(n)] + tail);
            assert forall|i: int| 0 <= i < split_lines(text).len() implies no_newline(#[trigger] split_lines(text)[i]) by {
                if i > 0 {
                    assert(split_lines(text)[i] == tail[i - 1]);
                }
            }
        }
    }
}

/// Line starts grow with the line index.
pub proof fn lemma_line_start_monotonic(lines: Seq<Seq<char>>, i: int, j: int)
    requires
        0 <= i <= j,
    ensures
        line_start(lines, i) + (j - i) <= line_start(lines, j),
    decreases j - i,
{
    if i < j {
        lemma_line_start_monotonic(lines, i, j - 1);
    }
}

/// The lines held by a vector of character vectors.
pub open spec fn rows(v: Seq<Vec<char>>) -> Seq<Seq<char>> {
    Seq::new(v.len(), |i: int| v[i]@)
}

/// Splits a text into its lines.
pub fn lines_of(text: &str) -> (r: Vec<Vec<char>>)
    ensures
        rows(r@) == split_lines(text@),
{
    let chars = chars_of(text);
    let mut lines: Vec<Vec<char>> = Vec::new();
    let mut cur: Vec<char> = Vec::new();
    let mut i: usize = 0;
    assert(cur@ + chars@.skip(0) == chars@);
    assert(rows(lines@) + split_lines(chars@) == split_lines(chars@));
    while i < chars.len()
        invariant
            i <= chars.len(),
            chars@ == text@,
            no_newline(cur@),
            rows(lines@) + split_lines(cur@ + chars@.skip(i as int)) == split_lines(text@),
        decreases chars.len() - i,
    {
        let c = chars[i];
        let ghost rest = chars@.skip(i + 1);
        let ghost before = rows(lines@);
        let ghost pending = cur@;
        assert(chars@.skip(i as int) == seq![c] + rest);
        if c == '\n' {
            proof {
                lemma_split_lines_cons(pending, rest);
                assert(pending + chars@.skip(i as int) == pending + seq!['\n'] + rest);
            }
            lines.push(cur);
            cur = Vec::new();
            proof {
                assert(rows(lines@) == before.push(pending));
                assert(before.push(pending) + split_lines(rest) == before + (seq![pending]
                    + split_lines(rest)));
                assert(cur@ + rest == rest);
            }
        } else {
            cur.push(c);
            proof {
                assert(cur@ + rest == pending + (seq![c] + rest));
            }
        }
        i += 1;
    }
    assert(cur@ + chars@.skip(i as int) == cur@);
    if cur.len() > 0 {
        proof {
            lemma_split_lines_single(cur@);
        }
        let ghost before = rows(lines@);
        let ghost pending = cur@;
        lines.push(cur);
        proof {
            assert(rows(lines@) == before.push(pending));
            assert(before.push(pending) == before + seq![pending]);
        }
    } else {
        assert(rows(lines@) + Seq::<Seq<char>>::empty() == rows(lines@));
    }
    lines
}

/// The line-start table of `lines`, or `None` when an offset does not fit in
/// `usize`.
pub fn line_offsets_of(lines: &Vec<Vec<char>>) -> (r: Option<Vec<usize>>)
    ensures
        match r {
            Some(t) => is_line_table(t@, rows(lines@)) && line_start(
                rows(lines@),
                lines.len() as int,
            ) <= usize::MAX,
            None => line_start(rows(lines@), lines.len() as int) > usize::MAX,
        },
{
    let mut table: Vec<usize> = Vec::new();
    let mut start: usize = 0;
    let mut i: usize = 0;
    let ghost all = rows(lines@);
    while i < lines.len()
        invariant
            i <= lines.len(),
            all == rows(lines@),
            start == line_start(all, i as int),
            table.len() == i,
            forall|k: int| 0 <= k < i ==> table@[k] == line_start(all, k),
        decreases lines.len() - i,
    {
        table.push(start);
        proof {
            lemma_line_start_monotonic(all, i + 1, lines.len() as int);
        }
        let next = match line_byte_len(&lines[i]) {
            Some(n) => match start.checked_add(n) {
                Some(m) => m.checked_add(1),
                None => None,
            },
            None => None,
        };
        match next {
            Some(m) => {
                start = m;
            },
            None => {
                return None;
            },
        }
        i += 1;
    }
    Some(table)
}

/// The character of the decimal digit `d`.
pub open spec fn digit_char(d: int) -> char {
    if d == 0 {
        '0'
    } else if d == 1 {
        '1'
    } else if d == 2 {
        '2'
    } else if d == 3 {
        '3'
    } else if d == 4 {
        '4'
    } else if d == 5 {
        '5'
    } else if d == 6 {
        '6'
    } else if d == 7 {
        '7'
    } else if d == 8 {
        '8'
    } else {
        '9'
    }
}

/// The decimal numeral of `n`, without leading zeros.
pub open spec fn decimal(n: nat) -> Seq<char>
    decreases n,
{
    if n < 10 {
        seq![digit_char(n as int)]
    } else {
        decimal(n / 10).push(digit_char((n % 10) as int))
    }
}

/// The character of a decimal digit.
fn digit_of(d: u8) -> (c: char)
    requires
        d < 10,
    ensures
        c == digit_char(d as int),
{
    match d {
        0 => '0',
        1 => '1',
        2 => '2',
        3 => '3',
        4 => '4',
        5 => '5',
        6 => '6',
        7 => '7',
        8 => '8',
        _ => '9',
    }
}

/// The decimal numeral of `n`.
pub fn decimal_of(n: u128) -> (r: Vec<char>)
    ensures
        r@ == decimal(n as nat),
    decreases n,
{
    if n < 10 {
        let mut r: Vec<char> = Vec::new();
        r.push(digit_of(n as u8));
        r
    } else {
        let mut r = decimal_of(n / 10);
        r.push(digit_of((n % 10) as u8));
        r
    }
}

/// `count` spaces.
pub open spec fn spaces(count: nat) -> Seq<char> {
    Seq::new(count, |i: int| ' ')
}

/// `text`, with spaces before it where it is shorter than `width`.
pub open spec fn right_aligned(text: Seq<char>, width: nat) -> Seq<char> {
    if text.len() < width {
        spaces((width - text.len()) as nat) + text
    } else {
        text
    }
}

/// Appends `count` spaces to `line`.
pub fn push_spaces(line: &mut Vec<char>, count: usize)
    ensures
        final(line)@ == old(line)@ + spaces(count as nat),
{
    let ghost before = line@;
    let mut i: usize = 0;
    while i < count
        invariant
            i <= count,
            line@ == before + spaces(i as nat),
        decreases count - i,
    {
        line.push(' ');
        i += 1;
    }
}

/// Appends the characters of `more` to `line`.
pub fn push_chars(line: &mut Vec<char>, more: &Vec<char>)
    ensures
        final(line)@ == old(line)@ + more@,
{
    let ghost before = line@;
    let mut i: usize = 0;
    while i < more.len()
        invariant
            i <= more.len(),
            line@ == before + more@.take(i as int),
        decreases more.len() - i,
    {
        line.push(more[i]);
        i += 1;
    }
    assert(more@.take(more.len() as int) == more@);
}

/// The lines of a vector of strings.
pub open spec fn texts(v: Seq<String>) -> Seq<Seq<char>> {
    Seq::new(v.len(), |i: int| v[i]@)
}

/// The lines as strings.
pub fn strings_of(lines: &Vec<Vec<char>>) -> (r: Vec<String>)
    ensures
        texts(r@) == rows(lines@),
{
    let mut r: Vec<String> = Vec::new();
    let mut i: usize = 0;
    while i < lines.len()
        invariant
            i <= lines.len(),
            texts(r@) == rows(lines@).take(i as int),
        decreases lines.len() - i,
    {
        let ghost before = texts(r@);
        r.push(string_of(&lines[i]));
        assert(texts(r@) == before.push(lines@[i as int]@));
        i += 1;
    }
    assert(rows(lines@).take(lines.len() as int) == rows(lines@));
    r
}

/// Whether `s` holds exactly the characters of `expected`.
pub fn str_is(s: &str, expected: &str) -> (r: bool)
    ensures
        r == (s@ == expected@),
{
    let a = chars_of(s);
    let b = chars_of(expected);
    chars_eq(&a, &b)
}

} // verus!
