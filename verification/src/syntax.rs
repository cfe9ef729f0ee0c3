//! Syntax highlighting: token kinds, highlight spans and the highlighter.

use vstd::prelude::*;
use streaming_iterator::StreamingIterator;
use crate::text::{chars_eq, chars_of};

verus! {

/// The closed set of token kinds that a span can be colored as.
#[derive(Clone, Copy, Debug, PartialEq, Eq, Structural)]
pub enum TokenType {
    Keyword,
    Type,
    Function,
    Variable,
    String,
    Number,
    Comment,
    Operator,
    Punctuation,
    Constant,
    Parameter,
    Property,
    Label,
}

/// One colored token: the half-open byte range `start..end` of the text it was
/// computed from, and its kind.
#[derive(Clone, Copy, Debug, PartialEq, Eq, Structural)]
pub struct HighlightSpan {
    pub start: usize,
    pub end: usize,
    pub token_type: TokenType,
}

/// Whether the spans come in ascending order of their start.
pub open spec fn sorted_by_start(spans: Seq<HighlightSpan>) -> bool {
    forall|i: int, j: int| 0 <= i <= j < spans.len() ==> spans[i].start <= spans[j].start
}

/// Whether two spans cross: they overlap and neither lies within the other.
pub fn spans_cross(a: &HighlightSpan, b: &HighlightSpan) -> (r: bool)
    ensures
        r == crossing(*a, *b),
{
    (a.start < b.start && b.start < a.end && a.end < b.end) || (b.start < a.start && a.start
        < b.end && b.end < a.end)
}

/// Whether two spans cross: they overlap and neither lies within the other.
pub open spec fn crossing(a: HighlightSpan, b: HighlightSpan) -> bool {
    ||| a.start < b.start && b.start < a.end && a.end < b.end
    ||| b.start < a.start && a.start < b.end && b.end < a.end
}

/// Whether `spans` is a well-formed highlight set: no span is empty, the spans
/// are sorted by start, and no two of them cross.
pub open spec fn well_formed_spans(spans: Seq<HighlightSpan>) -> bool {
    &&& forall|i: int| 0 <= i < spans.len() ==> (#[trigger] spans[i]).start < spans[i].end
    &&& sorted_by_start(spans)
    &&& forall|i: int, j: int| 0 <= i < j < spans.len() ==> !crossing(spans[i], spans[j])
}

/// Whether `spans` is a well-formed highlight set.
pub fn is_well_formed(spans: &[HighlightSpan]) -> (r: bool)
    ensures
        r == well_formed_spans(spans@),
{
    let n = spans.len();
    let mut i: usize = 0;
    while i < n
        invariant
            i <= n,
            n == spans.len(),
            forall|k: int| 0 <= k < i ==> (#[trigger] spans@[k]).start < spans@[k].end,
            forall|k: int, l: int| 0 <= k <= l < i ==> spans@[k].start <= spans@[l].start,
            forall|k: int, l: int| 0 <= k < l < i ==> !crossing(spans@[k], spans@[l]),
        decreases n - i,
    {
        let x = spans[i];
        if x.start >= x.end {
            return false;
        }
        if i > 0 && spans[i - 1].start > x.start {
            assert(!sorted_by_start(spans@));
            return false;
        }
        let mut k: usize = 0;
        while k < i
            invariant
                k <= i,
                i < n,
                n == spans.len(),
                x == spans@[i as int],
                forall|m: int| 0 <= m < k ==> !crossing(spans@[m], x),
            decreases i - k,
        {
            if spans_cross(&spans[k], &x) {
                return false;
            }
            k += 1;
        }
        i += 1;
    }
    true
}

/// The part of a capture name before its first dot: the whole name if it
/// holds no dot.
pub open spec fn base_name(name: Seq<char>) -> Seq<char>
    decreases name.len(),
{
    if name.len() == 0 || name[0] == '.' {
        Seq::empty()
    } else {
        seq![name[0]] + base_name(name.skip(1))
    }
}

/// The token kind that a base name stands for. Besides the names of the
/// kinds themselves, a fixed set of other names is folded into them; a name
/// outside the table stands for no kind.
pub open spec fn kind_of_base(base: Seq<char>) -> Option<TokenType> {
    if base == "keyword"@ {
        Some(TokenType::Keyword)
    } else if base == "type"@ {
        Some(TokenType::Type)
    } else if base == "function"@ {
        Some(TokenType::Function)
    } else if base == "variable"@ {
        Some(TokenType::Variable)
    } else if base == "string"@ {
        Some(TokenType::String)
    } else if base == "number"@ {
        Some(TokenType::Number)
    } else if base == "comment"@ {
        Some(TokenType::Comment)
    } else if base == "operator"@ {
        Some(TokenType::Operator)
    } else if base == "punctuation"@ {
        Some(TokenType::Punctuation)
    } else if base == "constant"@ {
        Some(TokenType::Constant)
    } else if base == "parameter"@ {
        Some(TokenType::Parameter)
    } else if base == "property"@ {
        Some(TokenType::Property)
    } else if base == "label"@ {
        Some(TokenType::Label)
    } else if base == "character"@ {
        Some(TokenType::String)
    } else if base == "boolean"@ {
        Some(TokenType::Constant)
    } else if base == "namespace"@ {
        Some(TokenType::Type)
    } else if base == "module"@ {
        Some(TokenType::Type)
    } else if base == "constructor"@ {
        Some(TokenType::Type)
    } else if base == "method"@ {
        Some(TokenType::Function)
    } else if base == "macro"@ {
        Some(TokenType::Function)
    } else if base == "annotation"@ {
        Some(TokenType::Keyword)
    } else if base == "attribute"@ {
        Some(TokenType::Keyword)
    } else if base == "decorator"@ {
        Some(TokenType::Keyword)
    } else if base == "tag"@ {
        Some(TokenType::Type)
    } else if base == "escape"@ {
        Some(TokenType::Operator)
    } else if base == "delimiter"@ {
        Some(TokenType::Punctuation)
    } else if base == "special"@ {
        Some(TokenType::Operator)
    } else if base == "field"@ {
        Some(TokenType::Property)
    } else if base == "enum"@ {
        Some(TokenType::Type)
    } else if base == "struct"@ {
        Some(TokenType::Type)
    } else if base == "class"@ {
        Some(TokenType::Type)
    } else if base == "interface"@ {
        Some(TokenType::Type)
    } else if base == "trait"@ {
        Some(TokenType::Type)
    } else if base == "regexp"@ {
        Some(TokenType::String)
    } else if base == "conditional"@ {
        Some(TokenType::Keyword)
    } else if base == "repeat"@ {
        Some(TokenType::Keyword)
    } else if base == "exception"@ {
        Some(TokenType::Keyword)
    } else if base == "include"@ {
        Some(TokenType::Keyword)
    } else if base == "storageclass"@ {
        Some(TokenType::Keyword)
    } else if base == "identifier"@ {
        Some(TokenType::Variable)
    } else if base == "float"@ {
        Some(TokenType::Number)
    } else if base == "text"@ {
        Some(TokenType::String)
    } else {
        None
    }
}

/// The token kind that a capture name stands for: that of its base name.
pub open spec fn kind_of_capture(name: Seq<char>) -> Option<TokenType> {
    kind_of_base(base_name(name))
}

/// Whether `base` holds exactly the characters of `word`.
fn word_is(base: &Vec<char>, word: &str) -> (r: bool)
    ensures
        r == (base@ == word@),
{
    let other = chars_of(word);
    chars_eq(base, &other)
}

/// The token kind that a capture name stands for, if any.
pub fn token_type_of_capture(name: &str) -> (r: Option<TokenType>)
    ensures
        r == kind_of_capture(name@),
{
    let chars = chars_of(name);
    let mut base: Vec<char> = Vec::new();
    let mut i: usize = 0;
    assert(chars@.skip(0) == chars@);
    assert(base@ + base_name(chars@) == base_name(chars@));
    while i < chars.len() && chars[i] != '.'
        invariant
            i <= chars.len(),
            base@ + base_name(chars@.skip(i as int)) == base_name(chars@),
        decreases chars.len() - i,
    {
        let ghost before = base@;
        let ghost rest = chars@.skip(i as int);
        base.push(chars[i]);
        proof {
            assert(rest.skip(1) == chars@.skip(i + 1));
            assert(before + (seq![rest[0]] + base_name(rest.skip(1))) == base@ + base_name(
                rest.skip(1),
            ));
        }
        i += 1;
    }
    assert(base_name(chars@.skip(i as int)) == Seq::<char>::empty());
    assert(base@ + Seq::<char>::empty() == base@);
    if word_is(&base, "keyword") {
        Some(TokenType::Keyword)
    } else if word_is(&base, "type") {
        Some(TokenType::Type)
    } else if word_is(&base, "function") {
        Some(TokenType::Function)
    } else if word_is(&base, "variable") {
        Some(TokenType::Variable)
    } else if word_is(&base, "string") {
        Some(TokenType::String)
    } else if word_is(&base, "number") {
        Some(TokenType::Number)
    } else if word_is(&base, "comment") {
        Some(TokenType::Comment)
    } else if word_is(&base, "operator") {
        Some(TokenType::Operator)
    } else if word_is(&base, "punctuation") {
        Some(TokenType::Punctuation)
    } else if word_is(&base, "constant") {
        Some(TokenType::Constant)
    } else if word_is(&base, "parameter") {
        Some(TokenType::Parameter)
    } else if word_is(&base, "property") {
        Some(TokenType::Property)
    } else if word_is(&base, "label") {
        Some(TokenType::Label)
    } else if word_is(&base, "character") {
        Some(TokenType::String)
    } else if word_is(&base, "boolean") {
        Some(TokenType::Constant)
    } else if word_is(&base, "namespace") {
        Some(TokenType::Type)
    } else if word_is(&base, "module") {
        Some(TokenType::Type)
    } else if word_is(&base, "constructor") {
        Some(TokenType::Type)
    } else if word_is(&base, "method") {
        Some(TokenType::Function)
    } else if word_is(&base, "macro") {
        Some(TokenType::Function)
    } else if word_is(&base, "annotation") {
        Some(TokenType::Keyword)
    } else if word_is(&base, "attribute") {
        Some(TokenType::Keyword)
    } else if word_is(&base, "decorator") {
        Some(TokenType::Keyword)
    } else if word_is(&base, "tag") {
        Some(TokenType::Type)
    } else if word_is(&base, "escape") {
        Some(TokenType::Operator)
    } else if word_is(&base, "delimiter") {
        Some(TokenType::Punctuation)
    } else if word_is(&base, "special") {
        Some(TokenType::Operator)
    } else if word_is(&base, "field") {
        Some(TokenType::Property)
    } else if word_is(&base, "enum") {
        Some(TokenType::Type)
    } else if word_is(&base, "struct") {
        Some(TokenType::Type)
    } else if word_is(&base, "class") {
        Some(TokenType::Type)
    } else if word_is(&base, "interface") {
        Some(TokenType::Type)
    } else if word_is(&base, "trait") {
        Some(TokenType::Type)
    } else if word_is(&base, "regexp") {
        Some(TokenType::String)
    } else if word_is(&base, "conditional") {
        Some(TokenType::Keyword)
    } else if word_is(&base, "repeat") {
        Some(TokenType::Keyword)
    } else if word_is(&base, "exception") {
        Some(TokenType::Keyword)
    } else if word_is(&base, "include") {
        Some(TokenType::Keyword)
    } else if word_is(&base, "storageclass") {
        Some(TokenType::Keyword)
    } else if word_is(&base, "identifier") {
        Some(TokenType::Variable)
    } else if word_is(&base, "float") {
        Some(TokenType::Number)
    } else if word_is(&base, "text") {
        Some(TokenType::String)
    } else {
        None
    }
}

/// One capture of a query: the name of the capture and the byte range of the
/// node that it caught.
#[derive(Debug)]
pub struct Capture {
    pub name: String,
    pub start: usize,
    pub end: usize,
}

/// A capture as contracts see it.
pub struct CaptureView {
    pub name: Seq<char>,
    pub start: usize,
    pub end: usize,
}

impl View for Capture {
    type V = CaptureView;

    open spec fn view(&self) -> CaptureView {
        CaptureView { name: self.name@, start: self.start, end: self.end }
    }
}

/// The captures of a vector as contracts see them.
pub open spec fn capture_views(captures: Seq<Capture>) -> Seq<CaptureView> {
    Seq::new(captures.len(), |i: int| captures[i]@)
}

/// The index at which a span that starts at `start` goes into `sorted`:
/// behind every span that starts no later.
pub open spec fn insert_position(sorted: Seq<HighlightSpan>, start: usize) -> int
    decreases sorted.len(),
{
    if sorted.len() == 0 || sorted.last().start <= start {
        sorted.len() as int
    } else {
        insert_position(sorted.drop_last(), start)
    }
}

/// The spans in ascending order of their start, where spans of equal start
/// keep the order in which they came.
pub open spec fn sorted_stably(spans: Seq<HighlightSpan>) -> Seq<HighlightSpan>
    decreases spans.len(),
{
    if spans.len() == 0 {
        Seq::empty()
    } else {
        let sorted = sorted_stably(spans.drop_last());
        sorted.insert(insert_position(sorted, spans.last().start), spans.last())
    }
}

/// The spans that the captures give, in the order of the captures: one span
/// for each capture whose name stands for a token kind, none for the others.
pub open spec fn spans_in_order(captures: Seq<CaptureView>) -> Seq<HighlightSpan>
    decreases captures.len(),
{
    if captures.len() == 0 {
        Seq::empty()
    } else {
        let before = spans_in_order(captures.drop_last());
        match kind_of_capture(captures.last().name) {
            Some(token_type) => before.push(
                HighlightSpan { start: captures.last().start, end: captures.last().end, token_type },
            ),
            None => before,
        }
    }
}

/// The highlight spans of a list of captures: the spans that the captures
/// give, sorted by start.
pub open spec fn spans_of(captures: Seq<CaptureView>) -> Seq<HighlightSpan> {
    sorted_stably(spans_in_order(captures))
}

/// The place of a span in a sorted list splits the list into the spans that
/// start no later and those that start later.
pub proof fn lemma_insert_position(sorted: Seq<HighlightSpan>, start: usize)
    requires
        sorted_by_start(sorted),
    ensures
        0 <= insert_position(sorted, start) <= sorted.len(),
        forall|i: int| 0 <= i < insert_position(sorted, start) ==> (#[trigger] sorted[i]).start <= start,
        forall|i: int|
            insert_position(sorted, start) <= i < sorted.len() ==> (#[trigger] sorted[i]).start > start,
    decreases sorted.len(),
{
    if sorted.len() == 0 || sorted.last().start <= start {
    } else {
        let front = sorted.drop_last();
        assert(sorted_by_start(front)) by {
            assert forall|i: int, j: int| 0 <= i <= j < front.len() implies front[i].start
                <= front[j].start by {
                assert(front[i] == sorted[i] && front[j] == sorted[j]);
            }
        }
        lemma_insert_position(front, start);
        let p = insert_position(front, start);
        assert forall|i: int| p <= i < sorted.len() implies (#[trigger] sorted[i]).start > start by {
            if i < front.len() {
                assert(front[i] == sorted[i]);
            }
        }
        assert forall|i: int| 0 <= i < p implies (#[trigger] sorted[i]).start <= start by {
            assert(front[i] == sorted[i]);
        }
    }
}

/// **The sorted spans are sorted, and are the same spans.**
pub proof fn lemma_sorted_stably(spans: Seq<HighlightSpan>)
    ensures
        sorted_by_start(sorted_stably(spans)),
        sorted_stably(spans).to_multiset() == spans.to_multiset(),
        sorted_stably(spans).len() == spans.len(),
    decreases spans.len(),
{
    if spans.len() == 0 {
        assert(spans == Seq::<HighlightSpan>::empty());
    } else {
        let front = spans.drop_last();
        let x = spans.last();
        lemma_sorted_stably(front);
        let sorted = sorted_stably(front);
        lemma_insert_position(sorted, x.start);
        let p = insert_position(sorted, x.start);
        let r = sorted.insert(p, x);
        assert forall|i: int, j: int| 0 <= i <= j < r.len() implies r[i].start <= r[j].start by {
            if i < p && j > p {
                assert(r[i] == sorted[i] && r[j] == sorted[j - 1]);
            } else if i < p && j < p {
                assert(r[i] == sorted[i] && r[j] == sorted[j]);
            } else if i > p {
                assert(r[i] == sorted[i - 1] && r[j] == sorted[j - 1]);
            } else if i < p && j == p {
                assert(r[i] == sorted[i]);
            } else if i == p && j > p {
                assert(r[j] == sorted[j - 1]);
            }
        }
        let a = sorted.take(p);
        let b = sorted.skip(p);
        let one = seq![x];
        vstd::seq_lib::lemma_multiset_commutative(a, one);
        assert(r == a + one + b);
        assert(sorted == a + b);
        vstd::seq_lib::lemma_multiset_commutative(a + one, b);
        vstd::seq_lib::lemma_multiset_commutative(a, b);
        assert(spans == front + one);
        vstd::seq_lib::lemma_multiset_commutative(front, one);
        assert(r.to_multiset() =~= a.to_multiset().add(one.to_multiset()).add(b.to_multiset()));
        assert(spans.to_multiset() =~= a.to_multiset().add(b.to_multiset()).add(
            one.to_multiset(),
        ));
        assert(r.to_multiset() =~= spans.to_multiset());
    }
}

/// Sorts spans by start; spans of equal start keep their order.
pub fn sort_spans(spans: Vec<HighlightSpan>) -> (r: Vec<HighlightSpan>)
    ensures
        r@ == sorted_stably(spans@),
        sorted_by_start(r@),
{
    let mut sorted: Vec<HighlightSpan> = Vec::new();
    let mut i: usize = 0;
    assert(spans@.take(0) == Seq::<HighlightSpan>::empty());
    while i < spans.len()
        invariant
            i <= spans.len(),
            sorted@ == sorted_stably(spans@.take(i as int)),
        decreases spans.len() - i,
    {
        let x = spans[i];
        proof {
            lemma_sorted_stably(spans@.take(i as int));
            assert(spans@.take(i + 1).drop_last() == spans@.take(i as int));
            assert(spans@.take(i + 1).last() == x);
        }
        let mut p: usize = sorted.len();
        assert(sorted@.take(p as int) == sorted@);
        while p > 0 && sorted[p - 1].start > x.start
            invariant
                p <= sorted.len(),
                insert_position(sorted@, x.start) == insert_position(sorted@.take(p as int), x.start),
            decreases p,
        {
            proof {
                assert(sorted@.take(p as int).drop_last() == sorted@.take(p - 1));
            }
            p -= 1;
        }
        proof {
            if p > 0 {
                assert(sorted@.take(p as int).last() == sorted@[p - 1]);
            }
            assert(insert_position(sorted@, x.start) == p);
        }
        sorted.insert(p, x);
        i += 1;
    }
    proof {
        assert(spans@.take(spans.len() as int) == spans@);
        lemma_sorted_stably(spans@);
    }
    sorted
}

/// The highlight spans of a list of captures: each capture whose name stands
/// for a token kind gives a span, the others give none, and the spans come
/// sorted by start.
pub fn spans_from_captures(captures: &Vec<Capture>) -> (r: Vec<HighlightSpan>)
    ensures
        r@ == spans_of(capture_views(captures@)),
        sorted_by_start(r@),
{
    let ghost views = capture_views(captures@);
    let mut spans: Vec<HighlightSpan> = Vec::new();
    let mut i: usize = 0;
    assert(views.take(0) == Seq::<CaptureView>::empty());
    while i < captures.len()
        invariant
            i <= captures.len(),
            views == capture_views(captures@),
            spans@ == spans_in_order(views.take(i as int)),
        decreases captures.len() - i,
    {
        let capture = &captures[i];
        proof {
            assert(views.take(i + 1).drop_last() == views.take(i as int));
            assert(views.take(i + 1).last() == capture@);
        }
        match token_type_of_capture(capture.name.as_str()) {
            Some(token_type) => {
                spans.push(HighlightSpan { start: capture.start, end: capture.end, token_type });
            },
            None => {},
        }
        i += 1;
    }
    assert(views.take(captures.len() as int) == views);
    sort_spans(spans)
}

/// A parser of the `tree_sitter` crate.
#[verifier::external_type_specification]
#[verifier::external_body]
pub struct ExParser(tree_sitter::Parser);

/// A grammar of the `tree_sitter` crate.
#[verifier::external_type_specification]
#[verifier::external_body]
pub struct ExLanguage(tree_sitter::Language);

/// A compiled query of the `tree_sitter` crate.
#[verifier::external_type_specification]
#[verifier::external_body]
pub struct ExQuery(tree_sitter::Query);

/// A syntax tree of the `tree_sitter` crate.
#[verifier::external_type_specification]
#[verifier::external_body]
pub struct ExTree(tree_sitter::Tree);

/// Whether a parser takes the grammar: whether `Parser::set_language`
/// succeeds with it.
pub uninterp spec fn language_accepted(language: tree_sitter::Language) -> bool;

/// Whether a parser has a language to parse with.
pub uninterp spec fn parser_ready(parser: tree_sitter::Parser) -> bool;

/// Whether the text `source` compiles to a query for the grammar.
pub uninterp spec fn query_compiles(language: tree_sitter::Language, source: Seq<char>) -> bool;

/// The grammar and the text that a query was compiled from.
pub uninterp spec fn query_origin(query: tree_sitter::Query) -> (tree_sitter::Language, Seq<char>);

/// The text that a tree was parsed from.
pub uninterp spec fn tree_source(tree: tree_sitter::Tree) -> Seq<char>;

/// The captures that a query finds in the syntax tree of the text `source`:
/// every capture of every match, in the order in which they come.
pub uninterp spec fn query_captures(
    query: tree_sitter::Query,
    tree: tree_sitter::Tree,
    source: Seq<char>,
) -> Seq<CaptureView>;

/// A parser without a language, from `tree_sitter::Parser::new`.
#[verifier::external_body]
fn new_parser() -> (r: tree_sitter::Parser) {
    tree_sitter::Parser::new()
}

/// Gives a parser its language with `Parser::set_language`. Returns whether
/// the parser took it, which the grammar alone decides. A parser that took
/// a grammar has a language.
#[verifier::external_body]
fn parser_set_language(parser: &mut tree_sitter::Parser, language: &tree_sitter::Language) -> (r:
    bool)
    ensures
        r == language_accepted(*language),
        r ==> parser_ready(*final(parser)),
{
    parser.set_language(language).is_ok()
}

/// Compiles a query for a language with `tree_sitter::Query::new`. `None`
/// for a query that does not compile. A query that comes back is the one
/// compiled from this grammar and this text.
#[verifier::external_body]
fn compile_query(language: &tree_sitter::Language, source: &str) -> (r: Option<tree_sitter::Query>)
    ensures
        r is Some <==> query_compiles(*language, source@),
        r matches Some(query) ==> query_origin(query) == (*language, source@),
{
    tree_sitter::Query::new(language, source).ok()
}

/// A copy of a grammar, from its `clone`. The copy is the same grammar.
#[verifier::external_body]
fn clone_language(language: &tree_sitter::Language) -> (r: tree_sitter::Language)
    ensures
        r == *language,
{
    language.clone()
}

/// Parses a text afresh with `Parser::parse`. A parser that has a language
/// gives a tree, and keeps its language. A tree that comes back is that of
/// the text.
#[verifier::external_body]
fn parse_source(parser: &mut tree_sitter::Parser, source: &str) -> (r: Option<tree_sitter::Tree>)
    ensures
        parser_ready(*old(parser)) ==> r is Some,
        parser_ready(*final(parser)) == parser_ready(*old(parser)),
        r matches Some(tree) ==> tree_source(tree) == source@,
{
    parser.parse(source, None)
}

/// Runs a query over a syntax tree with `QueryCursor::matches`, and hands
/// out every capture of every match, in the order in which they come, as
/// the name of the capture and the byte range of its node. The contract
/// names what the query finds. The text has to be the one that the tree was
/// parsed from: the predicates of a query read the text by the byte ranges
/// of the nodes.
#[verifier::external_body]
fn collect_captures(query: &tree_sitter::Query, tree: &tree_sitter::Tree, source: &str) -> (r: Vec<
    Capture,
>)
    requires
        tree_source(*tree) == source@,
    ensures
        capture_views(r@) == query_captures(*query, *tree, source@),
{
    let mut captures = Vec::new();
    let mut cursor = tree_sitter::QueryCursor::new();
    let mut matches = cursor.matches(query, tree.root_node(), source.as_bytes());
    while let Some(found) = matches.next() {
        for capture in found.captures() {
            captures.push(
                Capture {
                    name: query.capture_names()[capture.index as usize].to_string(),
                    start: capture.node.start_byte(),
                    end: capture.node.end_byte(),
                },
            );
        }
    }
    captures
}

/// The last component of a path: what follows its last slash.
pub open spec fn file_name_of(path: Seq<char>) -> Seq<char>
    decreases path.len(),
{
    if path.len() == 0 || path.last() == '/' {
        Seq::empty()
    } else {
        file_name_of(path.drop_last()).push(path.last())
    }
}

/// The extension of a file name: what follows its last dot, if it holds a
/// dot behind its first character.
pub open spec fn extension_in(name: Seq<char>) -> Option<Seq<char>>
    decreases name.len(),
{
    if name.len() <= 1 {
        None
    } else if name.last() == '.' {
        Some(Seq::empty())
    } else {
        match extension_in(name.drop_last()) {
            Some(ext) => Some(ext.push(name.last())),
            None => None,
        }
    }
}

/// The extension of the file that a path names.
pub open spec fn extension_of(path: Seq<char>) -> Option<Seq<char>> {
    extension_in(file_name_of(path))
}

/// The last component of a path.
fn file_name(path: &Vec<char>) -> (r: Vec<char>)
    ensures
        r@ == file_name_of(path@),
{
    let n = path.len();
    let mut start: usize = n;
    assert(path@.take(n as int) == path@);
    assert(file_name_of(path@) + path@.subrange(n as int, n as int) == file_name_of(path@));
    while start > 0 && path[start - 1] != '/'
        invariant
            start <= n,
            n == path.len(),
            file_name_of(path@) == file_name_of(path@.take(start as int)) + path@.subrange(
                start as int,
                n as int,
            ),
        decreases start,
    {
        proof {
            let head = path@.take(start as int);
            assert(head.drop_last() == path@.take(start - 1));
            assert(head.last() == path@[start - 1]);
            assert(file_name_of(head.drop_last()).push(head.last()) + path@.subrange(
                start as int,
                n as int,
            ) == file_name_of(head.drop_last()) + path@.subrange(start - 1, n as int));
        }
        start -= 1;
    }
    proof {
        let head = path@.take(start as int);
        if start > 0 {
            assert(head.last() == path@[start - 1]);
        }
        assert(file_name_of(head) == Seq::<char>::empty());
        assert(Seq::<char>::empty() + path@.subrange(start as int, n as int) == path@.subrange(
            start as int,
            n as int,
        ));
    }
    let mut name: Vec<char> = Vec::new();
    let mut i: usize = start;
    while i < n
        invariant
            start <= i <= n,
            n == path.len(),
            name@ == path@.subrange(start as int, i as int),
        decreases n - i,
    {
        name.push(path[i]);
        i += 1;
    }
    name
}

/// The extension of a file name, if it has one.
fn extension_chars(name: &Vec<char>) -> (r: Option<Vec<char>>)
    ensures
        match r {
            Some(ext) => extension_in(name@) == Some(ext@),
            None => extension_in(name@) is None,
        },
{
    let n = name.len();
    let mut dot: usize = n;
    assert(name@.take(n as int) == name@);
    assert(forall|e: Seq<char>| e + name@.subrange(n as int, n as int) == e);
    while dot > 1 && name[dot - 1] != '.'
        invariant
            dot <= n,
            n == name.len(),
            match extension_in(name@.take(dot as int)) {
                Some(ext) => extension_in(name@) == Some(ext + name@.subrange(dot as int, n as int)),
                None => extension_in(name@) is None,
            },
        decreases dot,
    {
        proof {
            let head = name@.take(dot as int);
            assert(head.drop_last() == name@.take(dot - 1));
            assert(head.last() == name@[dot - 1]);
            match extension_in(head.drop_last()) {
                Some(ext) => {
                    assert(ext.push(head.last()) + name@.subrange(dot as int, n as int) == ext
                        + name@.subrange(dot - 1, n as int));
                },
                None => {},
            }
        }
        dot -= 1;
    }
    if dot > 1 {
        proof {
            let head = name@.take(dot as int);
            assert(head.last() == '.');
            assert(Seq::<char>::empty() + name@.subrange(dot as int, n as int) == name@.subrange(
                dot as int,
                n as int,
            ));
        }
        let mut ext: Vec<char> = Vec::new();
        let mut i: usize = dot;
        while i < n
            invariant
                dot <= i <= n,
                n == name.len(),
                ext@ == name@.subrange(dot as int, i as int),
            decreases n - i,
        {
            ext.push(name[i]);
            i += 1;
        }
        Some(ext)
    } else {
        None
    }
}

/// The extension of the file that a path names, if it has one.
pub fn file_extension(path: &str) -> (r: Option<Vec<char>>)
    ensures
        match r {
            Some(ext) => extension_of(path@) == Some(ext@),
            None => extension_of(path@) is None,
        },
{
    let chars = chars_of(path);
    let name = file_name(&chars);
    extension_chars(&name)
}

/// A grammar with the query that finds the tokens of its language, and the
/// file extensions of that language.
#[derive(Debug)]
pub struct Grammar {
    pub extensions: Vec<String>,
    pub language: tree_sitter::Language,
    pub query_source: String,
}

/// Whether the grammar `g` is meant for files of the extension `ext`.
pub open spec fn grammar_matches(g: Grammar, ext: Seq<char>) -> bool {
    exists|i: int| 0 <= i < g.extensions@.len() && (#[trigger] g.extensions@[i])@ == ext
}

/// The index of the first grammar for files of the extension `ext`, or the
/// number of grammars if there is none.
pub open spec fn grammar_index(grammars: Seq<Grammar>, ext: Seq<char>) -> int
    decreases grammars.len(),
{
    if grammars.len() == 0 {
        0
    } else if grammar_matches(grammars[0], ext) {
        0
    } else {
        1 + grammar_index(grammars.skip(1), ext)
    }
}

/// The index of the grammar that is chosen for a path, if one is chosen:
/// the first grammar for the extension of the path.
pub open spec fn chosen_grammar(grammars: Seq<Grammar>, path: Seq<char>) -> Option<int> {
    match extension_of(path) {
        Some(ext) => if grammar_index(grammars, ext) < grammars.len() {
            Some(grammar_index(grammars, ext))
        } else {
            None
        },
        None => None,
    }
}

/// Whether a grammar is meant for files of the extension `ext`.
fn grammar_has_extension(g: &Grammar, ext: &Vec<char>) -> (r: bool)
    ensures
        r == grammar_matches(*g, ext@),
{
    let mut i: usize = 0;
    while i < g.extensions.len()
        invariant
            i <= g.extensions.len(),
            forall|k: int| 0 <= k < i ==> (#[trigger] g.extensions@[k])@ != ext@,
        decreases g.extensions.len() - i,
    {
        let candidate = chars_of(g.extensions[i].as_str());
        if chars_eq(&candidate, ext) {
            return true;
        }
        i += 1;
    }
    false
}

/// The index of the grammar that is chosen for a path.
pub fn choose_grammar(grammars: &Vec<Grammar>, path: &str) -> (r: Option<usize>)
    ensures
        match r {
            Some(i) => chosen_grammar(grammars@, path@) == Some(i as int) && i < grammars.len(),
            None => chosen_grammar(grammars@, path@) is None,
        },
{
    let ext = match file_extension(path) {
        Some(ext) => ext,
        None => {
            return None;
        },
    };
    let mut i: usize = 0;
    assert(grammars@.skip(0) == grammars@);
    while i < grammars.len()
        invariant
            i <= grammars.len(),
            extension_of(path@) == Some(ext@),
            grammar_index(grammars@, ext@) == i + grammar_index(grammars@.skip(i as int), ext@),
        decreases grammars.len() - i,
    {
        assert(grammars@.skip(i as int)[0] == grammars@[i as int]);
        assert(grammars@.skip(i as int).skip(1) == grammars@.skip(i + 1));
        if grammar_has_extension(&grammars[i], &ext) {
            assert(grammar_index(grammars@.skip(i as int), ext@) == 0);
            return Some(i);
        }
        i += 1;
    }
    None
}

/// The highlighter: a parser with the grammar and the query of one language,
/// and the tree of the text that it parsed last.
pub struct Highlighter {
    parser: tree_sitter::Parser,
    language: Option<tree_sitter::Language>,
    query: Option<tree_sitter::Query>,
    query_source: Option<String>,
    cached_tree: Option<tree_sitter::Tree>,
    cached_source: String,
    fresh_parses: u64,
}

impl Highlighter {
    /// Whether a language is set.
    pub closed spec fn has_language(&self) -> bool {
        self.query is Some
    }

    /// The source of the query of the language that is set.
    pub closed spec fn query_text(&self) -> Option<Seq<char>> {
        match self.query_source {
            Some(s) => Some(s@),
            None => None,
        }
    }

    /// The text whose tree is kept, if a tree is kept.
    pub closed spec fn cached(&self) -> Option<Seq<char>> {
        if self.cached_tree is Some {
            Some(self.cached_source@)
        } else {
            None
        }
    }

    /// The number of parses so far.
    pub closed spec fn fresh_parse_count(&self) -> u64 {
        self.fresh_parses
    }

    /// The text that the kept tree was parsed from, if a tree is kept.
    pub closed spec fn parsed_text(&self) -> Option<Seq<char>> {
        match self.cached_tree {
            Some(tree) => Some(tree_source(tree)),
            None => None,
        }
    }

    /// The grammar and the text that the query of the language was compiled
    /// from, if a language is set.
    pub closed spec fn compiled_from(&self) -> Option<(tree_sitter::Language, Seq<char>)> {
        match self.query {
            Some(query) => Some(query_origin(query)),
            None => None,
        }
    }

    /// What the query of the language finds in the kept tree: nothing where
    /// no tree is kept.
    pub closed spec fn found(&self) -> Seq<CaptureView> {
        match (self.query, self.cached_tree) {
            (Some(query), Some(tree)) => query_captures(query, tree, self.cached_source@),
            _ => Seq::empty(),
        }
    }

    /// A highlighter with a language has a parser that took the grammar of
    /// the language, and the query that was compiled for that grammar from
    /// the query text. A kept tree is the tree of the kept text. A
    /// highlighter without a language keeps nothing.
    pub closed spec fn wf(&self) -> bool {
        &&& self.query is Some ==> {
            &&& parser_ready(self.parser)
            &&& self.language is Some
            &&& self.query_source is Some
            &&& language_accepted(self.language->0)
            &&& query_compiles(self.language->0, self.query_source->0@)
            &&& query_origin(self.query->0) == (self.language->0, self.query_source->0@)
        }
        &&& self.cached_tree matches Some(tree) ==> tree_source(tree) == self.cached_source@
        &&& self.query is None ==> {
            &&& self.language is None
            &&& self.query_source is None
            &&& self.cached_tree is None
        }
    }

    /// A highlighter without a language.
    pub fn new() -> (r: Highlighter)
        ensures
            r.wf(),
            !r.has_language(),
            r.query_text() is None,
            r.compiled_from() is None,
            r.cached() is None,
            r.parsed_text() is None,
            r.fresh_parse_count() == 0,
    {
        Highlighter {
            parser: new_parser(),
            language: None,
            query: None,
            query_source: None,
            cached_tree: None,
            cached_source: String::new(),
            fresh_parses: 0,
        }
    }

    /// Forgets the language and the kept tree.
    fn clear(&mut self)
        ensures
            final(self).wf(),
            !final(self).has_language(),
            final(self).query_text() is None,
            final(self).compiled_from() is None,
            final(self).cached() is None,
            final(self).parsed_text() is None,
            final(self).fresh_parse_count() == old(self).fresh_parse_count(),
    {
        self.language = None;
        self.query = None;
        self.query_source = None;
        self.cached_tree = None;
        self.cached_source = String::new();
    }

    /// Sets the language by its grammar and the source of its query. The
    /// language is set exactly if the parser takes the grammar and the
    /// query compiles for it; otherwise the highlighter is left without a
    /// language. The kept tree is forgotten either way.
    pub fn set_language(&mut self, language: &tree_sitter::Language, query_source: &str) -> (r: bool)
        ensures
            r == (language_accepted(*language) && query_compiles(*language, query_source@)),
            r == final(self).has_language(),
            final(self).wf(),
            final(self).cached() is None,
            final(self).parsed_text() is None,
            final(self).fresh_parse_count() == old(self).fresh_parse_count(),
            final(self).query_text() == if r {
                Some(query_source@)
            } else {
                None
            },
            final(self).compiled_from() == if r {
                Some((*language, query_source@))
            } else {
                None
            },
    {
        if parser_set_language(&mut self.parser, language) {
            match compile_query(language, query_source) {
                Some(query) => {
                    self.language = Some(clone_language(language));
                    self.query = Some(query);
                    self.query_source = Some(query_source.to_owned());
                    self.cached_tree = None;
                    self.cached_source = String::new();
                    return true;
                },
                None => {},
            }
        }
        self.clear();
        false
    }

    /// Sets the language for the file that `path` names: that of the first
    /// of `grammars` which is meant for the extension of the file. The
    /// language is set exactly if there is such a grammar, the parser takes
    /// it, and its query compiles; otherwise the highlighter is left
    /// without a language. The kept tree is forgotten either way.
    pub fn set_language_from_path(&mut self, path: &str, grammars: &Vec<Grammar>) -> (r: bool)
        ensures
            r == match chosen_grammar(grammars@, path@) {
                Some(i) => language_accepted(grammars@[i].language) && query_compiles(
                    grammars@[i].language,
                    grammars@[i].query_source@,
                ),
                None => false,
            },
            r == final(self).has_language(),
            final(self).wf(),
            final(self).cached() is None,
            final(self).parsed_text() is None,
            final(self).fresh_parse_count() == old(self).fresh_parse_count(),
            final(self).query_text() == match (r, chosen_grammar(grammars@, path@)) {
                (true, Some(i)) => Some(grammars@[i].query_source@),
                _ => None,
            },
            final(self).compiled_from() == match (r, chosen_grammar(grammars@, path@)) {
                (true, Some(i)) => Some((grammars@[i].language, grammars@[i].query_source@)),
                _ => None,
            },
    {
        match choose_grammar(grammars, path) {
            Some(i) => {
                let grammar = &grammars[i];
                self.set_language(&grammar.language, grammar.query_source.as_str())
            },
            None => {
                self.clear();
                false
            },
        }
    }

    /// Whether a call of `highlight` on `source` uses the kept tree: it does
    /// for the very text that was parsed last.
    pub open spec fn reuses(&self, source: Seq<char>) -> bool {
        self.cached() == Some(source)
    }

    /// The highlight spans of `source`: what the query of the language
    /// finds in the tree of the text, each capture of a known name as a
    /// span, sorted by start; spans that are empty, that end beyond the
    /// text or that cross an earlier span are left out, so that the result
    /// is a well-formed highlight set. Without a language there are no
    /// spans. The tree is kept, and is always the tree of the text that the
    /// spans are for: a call on the very text that was parsed
    /// last uses the kept tree and parses nothing, so that it gives the
    /// same spans; any other text is parsed afresh.
    pub fn highlight(&mut self, source: &str) -> (r: Vec<HighlightSpan>)
        requires
            old(self).wf(),
        ensures
            final(self).wf(),
            final(self).has_language() == old(self).has_language(),
            final(self).query_text() == old(self).query_text(),
            final(self).compiled_from() == old(self).compiled_from(),
            !old(self).has_language() ==> {
                &&& r@ == Seq::<HighlightSpan>::empty()
                &&& final(self).cached() == old(self).cached()
                &&& final(self).parsed_text() == old(self).parsed_text()
                &&& final(self).found() == old(self).found()
                &&& final(self).fresh_parse_count() == old(self).fresh_parse_count()
            },
            old(self).has_language() ==> {
                &&& final(self).cached() == Some(source@)
                &&& final(self).parsed_text() == Some(source@)
                &&& r@ == nested_spans(spans_of(final(self).found()), source.len() as int)
                &&& old(self).reuses(source@) ==> final(self).found() == old(self).found()
                &&& final(self).fresh_parse_count() == if old(self).reuses(source@) || old(
                    self,
                ).fresh_parse_count() == u64::MAX {
                    old(self).fresh_parse_count()
                } else {
                    (old(self).fresh_parse_count() + 1) as u64
                }
            },
            well_formed_spans(r@),
            forall|i: int| 0 <= i < r@.len() ==> (#[trigger] r@[i]).end <= source.len(),
    {
        if self.query.is_none() {
            let none: Vec<HighlightSpan> = Vec::new();
            assert(none@ == Seq::<HighlightSpan>::empty());
            return none;
        }
        let text = source.to_owned();
        let reuse = self.cached_tree.is_some() && self.cached_source == text;
        if !reuse {
            if self.fresh_parses < u64::MAX {
                self.fresh_parses = self.fresh_parses + 1;
            }
            match parse_source(&mut self.parser, source) {
                Some(tree) => {
                    self.cached_tree = Some(tree);
                    self.cached_source = text;
                },
                None => {
                    return Vec::new();
                },
            }
        }
        let captures = match (&self.query, &self.cached_tree) {
            (Some(query), Some(tree)) => collect_captures(query, tree, source),
            _ => Vec::new(),
        };
        assert(capture_views(captures@) == self.found());
        let spans = spans_from_captures(&captures);
        proof {
            lemma_nested_spans(spans@, source.len() as int);
        }
        keep_nested(spans, source.len())
    }

    /// The number of parses so far.
    pub fn fresh_parses(&self) -> (n: u64)
        ensures
            n == self.fresh_parse_count(),
    {
        self.fresh_parses
    }
}

impl Clone for Highlighter {
    /// A highlighter of its own for the same language: with a parser and a
    /// query of its own, and without a kept tree.
    fn clone(&self) -> (r: Highlighter)
        ensures
            r.wf(),
            r.cached() is None,
            r.parsed_text() is None,
            r.fresh_parse_count() == self.fresh_parse_count(),
            self.wf() ==> r.has_language() == self.has_language() && r.query_text()
                == self.query_text() && r.compiled_from() == self.compiled_from(),
    {
        let mut copy = Highlighter::new();
        copy.fresh_parses = self.fresh_parses;
        match (&self.language, &self.query_source) {
            (Some(language), Some(source)) => {
                let _ = copy.set_language(language, source.as_str());
            },
            _ => {},
        }
        copy
    }
}

impl Default for Highlighter {
    fn default() -> (r: Highlighter)
        ensures
            r.wf(),
            !r.has_language(),
            r.compiled_from() is None,
            r.cached() is None,
            r.parsed_text() is None,
            r.fresh_parse_count() == 0,
    {
        Highlighter::new()
    }
}

/// Whether a span is not empty and ends within a text of `len` bytes.
pub open spec fn fits(span: HighlightSpan, len: int) -> bool {
    span.start < span.end <= len
}

/// Whether the span `x` crosses one of the spans `kept`.
pub open spec fn crosses_any(kept: Seq<HighlightSpan>, x: HighlightSpan) -> bool {
    exists|k: int| 0 <= k < kept.len() && crossing(#[trigger] kept[k], x)
}

/// The spans of `spans` that make a well-formed set for a text of `len`
/// bytes: in their order, each span that fits the text and crosses none of
/// the spans kept before it.
pub open spec fn nested_spans(spans: Seq<HighlightSpan>, len: int) -> Seq<HighlightSpan>
    decreases spans.len(),
{
    if spans.len() == 0 {
        Seq::empty()
    } else {
        let kept = nested_spans(spans.drop_last(), len);
        if fits(spans.last(), len) && !crosses_any(kept, spans.last()) {
            kept.push(spans.last())
        } else {
            kept
        }
    }
}

/// **The kept spans are a well-formed set.** They are spans of the list,
/// each fits the text, and where the list is sorted by start, they are
/// sorted and no two of them cross.
pub proof fn lemma_nested_spans(spans: Seq<HighlightSpan>, len: int)
    ensures
        forall|k: int|
            0 <= k < nested_spans(spans, len).len() ==> spans.contains(
                #[trigger] nested_spans(spans, len)[k],
            ),
        forall|k: int|
            0 <= k < nested_spans(spans, len).len() ==> fits(
                #[trigger] nested_spans(spans, len)[k],
                len,
            ),
        sorted_by_start(spans) ==> well_formed_spans(nested_spans(spans, len)),
    decreases spans.len(),
{
    if spans.len() > 0 {
        let front = spans.drop_last();
        let x = spans.last();
        lemma_nested_spans(front, len);
        let kept = nested_spans(front, len);
        let r = nested_spans(spans, len);
        assert forall|k: int| 0 <= k < r.len() implies spans.contains(#[trigger] r[k]) by {
            if k < kept.len() {
                assert(r[k] == kept[k]);
                let j = choose|j: int| 0 <= j < front.len() && front[j] == kept[k];
                assert(spans[j] == kept[k]);
            } else {
                assert(spans[spans.len() - 1] == x);
            }
        }
        assert forall|k: int| 0 <= k < r.len() implies fits(#[trigger] r[k], len) by {
            if k < kept.len() {
                assert(r[k] == kept[k]);
            }
        }
        if sorted_by_start(spans) {
            assert(sorted_by_start(front)) by {
                assert forall|i: int, j: int| 0 <= i <= j < front.len() implies front[i].start
                    <= front[j].start by {
                    assert(front[i] == spans[i] && front[j] == spans[j]);
                }
            }
            assert forall|i: int, j: int| 0 <= i <= j < r.len() implies r[i].start
                <= r[j].start by {
                if j < kept.len() {
                    assert(r[i] == kept[i] && r[j] == kept[j]);
                } else if i < kept.len() {
                    assert(r[i] == kept[i]);
                    let m = choose|m: int| 0 <= m < front.len() && front[m] == kept[i];
                    assert(spans[m] == kept[i]);
                }
            }
            assert forall|i: int, j: int| 0 <= i < j < r.len() implies !crossing(r[i], r[j]) by {
                if j < kept.len() {
                    assert(r[i] == kept[i] && r[j] == kept[j]);
                } else {
                    assert(r[i] == kept[i]);
                }
            }
        }
    }
}

/// The spans that make a well-formed set for a text of `len` bytes.
pub fn keep_nested(spans: Vec<HighlightSpan>, len: usize) -> (r: Vec<HighlightSpan>)
    ensures
        r@ == nested_spans(spans@, len as int),
{
    let mut kept: Vec<HighlightSpan> = Vec::new();
    let mut i: usize = 0;
    assert(spans@.take(0) == Seq::<HighlightSpan>::empty());
    while i < spans.len()
        invariant
            i <= spans.len(),
            kept@ == nested_spans(spans@.take(i as int), len as int),
        decreases spans.len() - i,
    {
        let x = spans[i];
        proof {
            assert(spans@.take(i + 1).drop_last() == spans@.take(i as int));
            assert(spans@.take(i + 1).last() == x);
        }
        if x.start < x.end && x.end <= len {
            let mut crossed = false;
            let mut k: usize = 0;
            while k < kept.len() && !crossed
                invariant
                    k <= kept.len(),
                    crossed ==> crosses_any(kept@, x),
                    !crossed ==> forall|m: int| 0 <= m < k ==> !crossing(#[trigger] kept@[m], x),
                decreases kept.len() - k + (if crossed {
                    0int
                } else {
                    1int
                }),
            {
                if spans_cross(&kept[k], &x) {
                    crossed = true;
                }
                k += 1;
            }
            if !crossed {
                kept.push(x);
            }
        }
        i += 1;
    }
    assert(spans@.take(spans.len() as int) == spans@);
    kept
}

} // verus!
