use gitlogue::syntax::{
    choose_grammar, file_extension, is_well_formed, keep_nested, sort_spans, spans_cross,
    spans_from_captures, token_type_of_capture, Capture, Grammar, HighlightSpan, Highlighter,
    TokenType,
};

fn hl(start: usize, end: usize, token_type: TokenType) -> HighlightSpan {
    HighlightSpan { start, end, token_type }
}

fn capture(name: &str, start: usize, end: usize) -> Capture {
    Capture { name: name.to_string(), start, end }
}

fn rust_language() -> tree_sitter::Language {
    tree_sitter_rust::LANGUAGE.into()
}

fn rust_grammar(extensions: &[&str]) -> Grammar {
    Grammar {
        extensions: extensions.iter().map(|e| e.to_string()).collect(),
        language: rust_language(),
        query_source: tree_sitter_rust::HIGHLIGHTS_QUERY.to_string(),
    }
}

#[test]
fn capture_names_stand_for_token_kinds() {
    let own = [
        ("keyword", TokenType::Keyword),
        ("type", TokenType::Type),
        ("function", TokenType::Function),
        ("variable", TokenType::Variable),
        ("string", TokenType::String),
        ("number", TokenType::Number),
        ("comment", TokenType::Comment),
        ("operator", TokenType::Operator),
        ("punctuation", TokenType::Punctuation),
        ("constant", TokenType::Constant),
        ("parameter", TokenType::Parameter),
        ("property", TokenType::Property),
        ("label", TokenType::Label),
    ];
    for (name, kind) in own {
        assert_eq!(token_type_of_capture(name), Some(kind));
    }
}

#[test]
fn other_capture_names_are_folded_into_the_kinds() {
    let folded = [
        ("character", TokenType::String),
        ("boolean", TokenType::Constant),
        ("namespace", TokenType::Type),
        ("module", TokenType::Type),
        ("constructor", TokenType::Type),
        ("method", TokenType::Function),
        ("macro", TokenType::Function),
        ("annotation", TokenType::Keyword),
        ("attribute", TokenType::Keyword),
        ("decorator", TokenType::Keyword),
        ("tag", TokenType::Type),
        ("escape", TokenType::Operator),
        ("delimiter", TokenType::Punctuation),
        ("special", TokenType::Operator),
        ("field", TokenType::Property),
        ("enum", TokenType::Type),
        ("struct", TokenType::Type),
        ("class", TokenType::Type),
        ("interface", TokenType::Type),
        ("trait", TokenType::Type),
        ("regexp", TokenType::String),
        ("conditional", TokenType::Keyword),
        ("repeat", TokenType::Keyword),
        ("exception", TokenType::Keyword),
        ("include", TokenType::Keyword),
        ("storageclass", TokenType::Keyword),
        ("identifier", TokenType::Variable),
        ("float", TokenType::Number),
        ("text", TokenType::String),
    ];
    for (name, kind) in folded {
        assert_eq!(token_type_of_capture(name), Some(kind));
    }
}

#[test]
fn only_the_part_before_the_first_dot_counts() {
    assert_eq!(token_type_of_capture("keyword.function"), Some(TokenType::Keyword));
    assert_eq!(token_type_of_capture("constant.builtin"), Some(TokenType::Constant));
    assert_eq!(token_type_of_capture("punctuation.bracket.round"), Some(TokenType::Punctuation));
    assert_eq!(token_type_of_capture("string."), Some(TokenType::String));
    assert_eq!(token_type_of_capture(".keyword"), None);
    assert_eq!(token_type_of_capture("builtin.keyword"), None);
}

#[test]
fn unknown_capture_names_give_no_kind() {
    for name in ["", "embedded", "spell", "__name__", "_name", "_op", "_type", "none", "Keyword", "keywords", "keywor", "error"] {
        assert_eq!(token_type_of_capture(name), None);
    }
}

#[test]
fn spans_are_sorted_by_start_and_keep_their_order_otherwise() {
    let spans = vec![
        hl(5, 6, TokenType::Keyword),
        hl(1, 2, TokenType::Type),
        hl(5, 9, TokenType::String),
        hl(1, 3, TokenType::Function),
        hl(0, 9, TokenType::Comment),
        hl(5, 5, TokenType::Label),
    ];
    assert_eq!(
        sort_spans(spans),
        vec![
            hl(0, 9, TokenType::Comment),
            hl(1, 2, TokenType::Type),
            hl(1, 3, TokenType::Function),
            hl(5, 6, TokenType::Keyword),
            hl(5, 9, TokenType::String),
            hl(5, 5, TokenType::Label),
        ]
    );
    assert_eq!(sort_spans(vec![]), vec![]);
    let mut many: Vec<HighlightSpan> = (0..200).map(|i| hl((i * 37) % 50, i, TokenType::Type)).collect();
    let sorted = sort_spans(many.clone());
    many.sort_by_key(|s| s.start);
    assert_eq!(sorted, many);
}

#[test]
fn captures_without_a_kind_give_no_span() {
    let captures = vec![
        capture("function.method", 10, 14),
        capture("spell", 0, 30),
        capture("keyword", 3, 5),
        capture("unknown.thing", 3, 5),
        capture("boolean", 3, 7),
        capture("comment", 0, 2),
    ];
    assert_eq!(
        spans_from_captures(&captures),
        vec![
            hl(0, 2, TokenType::Comment),
            hl(3, 5, TokenType::Keyword),
            hl(3, 7, TokenType::Constant),
            hl(10, 14, TokenType::Function),
        ]
    );
    assert_eq!(spans_from_captures(&vec![]), vec![]);
}

#[test]
fn a_path_has_the_extension_of_its_file_name() {
    let ext = |path: &str| file_extension(path).map(|e| e.into_iter().collect::<String>());
    assert_eq!(ext("main.rs"), Some("rs".to_string()));
    assert_eq!(ext("src/syntax/mod.rs"), Some("rs".to_string()));
    assert_eq!(ext("archive.tar.gz"), Some("gz".to_string()));
    assert_eq!(ext("a/.b.c"), Some("c".to_string()));
    assert_eq!(ext("foo."), Some(String::new()));
    assert_eq!(ext("Makefile"), None);
    assert_eq!(ext(".bashrc"), None);
    assert_eq!(ext("dir.d/.hidden"), None);
    assert_eq!(ext("a/b.c/d"), None);
    assert_eq!(ext("a/b.c/"), None);
    assert_eq!(ext(""), None);
    assert_eq!(ext("."), None);
    assert_eq!(ext("é.日本"), Some("日本".to_string()));
}

#[test]
fn the_first_grammar_for_the_extension_is_chosen() {
    let grammars = vec![rust_grammar(&["py", "pyi"]), rust_grammar(&["rs"]), rust_grammar(&["rs", "x"])];
    assert_eq!(choose_grammar(&grammars, "src/main.rs"), Some(1));
    assert_eq!(choose_grammar(&grammars, "a.pyi"), Some(0));
    assert_eq!(choose_grammar(&grammars, "a.x"), Some(2));
    assert_eq!(choose_grammar(&grammars, "a.RS"), None);
    assert_eq!(choose_grammar(&grammars, "rs"), None);
    assert_eq!(choose_grammar(&vec![], "a.rs"), None);
}

#[test]
fn a_highlighter_without_a_language_gives_no_spans() {
    let mut highlighter = Highlighter::new();
    assert_eq!(highlighter.highlight("fn main() {}"), vec![]);
    assert_eq!(highlighter.fresh_parses(), 0);
    let mut other = Highlighter::default();
    assert_eq!(other.highlight(""), vec![]);
}

#[test]
fn a_highlighter_finds_the_tokens_of_its_language() {
    let mut highlighter = Highlighter::new();
    assert!(highlighter.set_language(&rust_language(), tree_sitter_rust::HIGHLIGHTS_QUERY));
    let source = "fn main() {\n    let x = \"hi\"; // done\n}\n";
    let spans = highlighter.highlight(source);
    assert!(!spans.is_empty());
    for pair in spans.windows(2) {
        assert!(pair[0].start <= pair[1].start);
    }
    for s in &spans {
        assert!(s.start <= s.end && s.end <= source.len());
    }
    assert!(spans.contains(&hl(0, 2, TokenType::Keyword)));
    assert!(spans.contains(&hl(3, 7, TokenType::Function)));
    assert!(spans.contains(&hl(16, 19, TokenType::Keyword)));
    assert!(spans.contains(&hl(24, 28, TokenType::String)));
    assert!(spans.contains(&hl(30, 37, TokenType::Comment)));
}

#[test]
fn the_same_source_is_not_parsed_afresh() {
    let mut highlighter = Highlighter::new();
    assert!(highlighter.set_language(&rust_language(), tree_sitter_rust::HIGHLIGHTS_QUERY));
    let source = "struct A { b: u32 }\nfn f(a: A) -> u32 { a.b + 1 }\n";
    assert_eq!(highlighter.fresh_parses(), 0);
    let first = highlighter.highlight(source);
    assert_eq!(highlighter.fresh_parses(), 1);
    let second = highlighter.highlight(source);
    assert_eq!(highlighter.fresh_parses(), 1);
    assert_eq!(first, second);
    assert!(!first.is_empty());
    let other = highlighter.highlight("fn g() {}\n");
    assert_eq!(highlighter.fresh_parses(), 2);
    assert_ne!(other, first);
    let again = highlighter.highlight(source);
    assert_eq!(highlighter.fresh_parses(), 3);
    assert_eq!(again, first);
}

#[test]
fn a_query_that_does_not_compile_leaves_no_language() {
    let mut highlighter = Highlighter::new();
    assert!(highlighter.set_language(&rust_language(), tree_sitter_rust::HIGHLIGHTS_QUERY));
    assert!(!highlighter.set_language(&rust_language(), "(this is no query"));
    assert_eq!(highlighter.highlight("fn main() {}"), vec![]);
    assert!(highlighter.set_language(&rust_language(), "(line_comment) @comment"));
    assert_eq!(highlighter.highlight("// a\nfn f() {}"), vec![hl(0, 4, TokenType::Comment)]);
}

#[test]
fn the_language_follows_the_extension_of_the_path() {
    let grammars = vec![rust_grammar(&["rs"])];
    let mut highlighter = Highlighter::new();
    assert!(highlighter.set_language_from_path("src/lib.rs", &grammars));
    assert!(!highlighter.highlight("fn main() {}").is_empty());
    assert_eq!(highlighter.fresh_parses(), 1);
    assert!(highlighter.set_language_from_path("other.rs", &grammars));
    highlighter.highlight("fn main() {}");
    assert_eq!(highlighter.fresh_parses(), 2);
    assert!(!highlighter.set_language_from_path("notes.txt", &grammars));
    assert_eq!(highlighter.highlight("fn main() {}"), vec![]);
    assert!(!highlighter.set_language_from_path("Makefile", &grammars));
}

#[test]
fn a_well_formed_set_is_sorted_and_free_of_empty_and_crossing_spans() {
    let nested = vec![
        hl(0, 10, TokenType::Function),
        hl(0, 4, TokenType::Keyword),
        hl(2, 3, TokenType::Type),
        hl(4, 10, TokenType::String),
        hl(12, 13, TokenType::Number),
    ];
    assert!(is_well_formed(&nested));
    assert!(is_well_formed(&[]));
    assert!(!is_well_formed(&[hl(3, 3, TokenType::Type)]));
    assert!(!is_well_formed(&[hl(4, 3, TokenType::Type)]));
    assert!(!is_well_formed(&[hl(5, 6, TokenType::Type), hl(1, 2, TokenType::Type)]));
    assert!(!is_well_formed(&[hl(0, 5, TokenType::Type), hl(3, 8, TokenType::Type)]));
    assert!(!is_well_formed(&[
        hl(0, 5, TokenType::Type),
        hl(1, 2, TokenType::Type),
        hl(3, 8, TokenType::Type)
    ]));
    assert!(is_well_formed(&[hl(0, 5, TokenType::Type), hl(5, 8, TokenType::Type)]));
    assert!(spans_cross(&hl(0, 5, TokenType::Type), &hl(3, 8, TokenType::Type)));
    assert!(spans_cross(&hl(3, 8, TokenType::Type), &hl(0, 5, TokenType::Type)));
    assert!(!spans_cross(&hl(0, 8, TokenType::Type), &hl(3, 8, TokenType::Type)));
    assert!(!spans_cross(&hl(0, 3, TokenType::Type), &hl(3, 8, TokenType::Type)));
    assert!(!spans_cross(&hl(0, 3, TokenType::Type), &hl(0, 3, TokenType::Type)));
}

#[test]
fn the_spans_of_a_parse_are_well_formed() {
    let mut highlighter = Highlighter::new();
    assert!(highlighter.set_language(&rust_language(), "(line_comment) @comment \"fn\" @keyword (function_item) @function"));
    let spans = highlighter.highlight("// a\nfn f() {}\nfn g() {}\n");
    assert_eq!(
        spans,
        vec![
            hl(0, 4, TokenType::Comment),
            hl(5, 14, TokenType::Function),
            hl(5, 7, TokenType::Keyword),
            hl(15, 24, TokenType::Function),
            hl(15, 17, TokenType::Keyword),
        ]
    );
    assert!(is_well_formed(&spans));
}

#[test]
fn a_copy_of_a_highlighter_speaks_the_same_language() {
    let mut highlighter = Highlighter::new();
    assert!(highlighter.set_language(&rust_language(), "\"fn\" @keyword"));
    let first = highlighter.highlight("fn f() {}");
    assert_eq!(first, vec![hl(0, 2, TokenType::Keyword)]);
    let mut copy = highlighter.clone();
    assert_eq!(copy.fresh_parses(), 1);
    assert_eq!(copy.highlight("fn f() {}"), first);
    assert_eq!(copy.fresh_parses(), 2);
    assert_eq!(highlighter.fresh_parses(), 1);
    assert_eq!(highlighter.highlight("fn f() {}"), first);
    assert_eq!(highlighter.fresh_parses(), 1);
    let mut bare = Highlighter::new().clone();
    assert_eq!(bare.highlight("fn f() {}"), vec![]);
}

#[test]
fn spans_that_break_the_set_are_left_out() {
    let spans = vec![
        hl(0, 10, TokenType::Function),
        hl(0, 0, TokenType::Label),
        hl(2, 6, TokenType::Keyword),
        hl(4, 8, TokenType::String),
        hl(5, 4, TokenType::Number),
        hl(6, 10, TokenType::Type),
        hl(8, 12, TokenType::Comment),
        hl(10, 11, TokenType::Operator),
        hl(11, 11, TokenType::Operator),
    ];
    assert_eq!(
        keep_nested(spans.clone(), 11),
        vec![
            hl(0, 10, TokenType::Function),
            hl(2, 6, TokenType::Keyword),
            hl(6, 10, TokenType::Type),
            hl(10, 11, TokenType::Operator),
        ]
    );
    assert_eq!(
        keep_nested(spans.clone(), 10),
        vec![
            hl(0, 10, TokenType::Function),
            hl(2, 6, TokenType::Keyword),
            hl(6, 10, TokenType::Type),
        ]
    );
    assert_eq!(keep_nested(spans, 9), vec![hl(2, 6, TokenType::Keyword)]);
    assert_eq!(keep_nested(vec![], 5), vec![]);
    let nested = vec![hl(0, 4, TokenType::Type), hl(0, 4, TokenType::Keyword), hl(1, 2, TokenType::Label)];
    assert_eq!(keep_nested(nested.clone(), 4), nested);
}

#[test]
fn the_spans_of_a_text_lie_within_it() {
    let mut highlighter = Highlighter::new();
    assert!(highlighter.set_language(&rust_language(), tree_sitter_rust::HIGHLIGHTS_QUERY));
    for source in ["", "fn", "fn f( {", "let s = \"é日\"; // 🎉", "struct A;\nimpl A { fn f(&self) -> u8 { 1 } }\n"] {
        let spans = highlighter.highlight(source);
        assert!(is_well_formed(&spans));
        for s in &spans {
            assert!(s.start < s.end && s.end <= source.len());
        }
        assert_eq!(highlighter.highlight(source), spans);
    }
}

#[test]
fn a_language_is_set_when_the_grammar_is_taken_and_the_query_compiles() {
    let mut highlighter = Highlighter::new();
    assert!(highlighter.set_language(&rust_language(), ""));
    assert_eq!(highlighter.highlight("fn f() {}"), vec![]);
    assert_eq!(highlighter.fresh_parses(), 1);
    assert!(!highlighter.set_language(&rust_language(), "(no_such_node) @keyword"));
    assert_eq!(highlighter.highlight("fn f() {}"), vec![]);
    assert_eq!(highlighter.fresh_parses(), 1);
    let broken = Grammar {
        extensions: vec!["rs".to_string()],
        language: rust_language(),
        query_source: "(((".to_string(),
    };
    assert!(!highlighter.set_language_from_path("a.rs", &vec![broken, rust_grammar(&["rs"])]));
    assert_eq!(highlighter.highlight("fn f() {}"), vec![]);
    assert!(highlighter.set_language_from_path("a.rs", &vec![rust_grammar(&["py"]), rust_grammar(&["rs"])]));
    assert!(!highlighter.highlight("fn f() {}").is_empty());
}

#[test]
fn a_shorter_text_after_a_longer_one_is_parsed_afresh() {
    let mut highlighter = Highlighter::new();
    assert!(highlighter.set_language(&rust_language(), tree_sitter_rust::HIGHLIGHTS_QUERY));
    let long = "const MAX_SIZE: usize = 10;\nfn main() { println!(\"{}\", Some(MAX_SIZE).unwrap()); }\n";
    let short = "fn f() {}";
    let of_long = highlighter.highlight(long);
    assert!(of_long.iter().any(|s| s.end > short.len()));
    let of_short = highlighter.highlight(short);
    assert_eq!(highlighter.fresh_parses(), 2);
    assert!(of_short.contains(&hl(0, 2, TokenType::Keyword)));
    for s in &of_short {
        assert!(s.end <= short.len());
    }
    assert_eq!(highlighter.highlight(long), of_long);
    assert_eq!(highlighter.fresh_parses(), 3);
}

#[test]
fn a_new_language_brings_its_own_query() {
    let mut highlighter = Highlighter::new();
    assert!(highlighter.set_language(&rust_language(), "\"fn\" @keyword"));
    assert_eq!(highlighter.highlight("fn f() {}"), vec![hl(0, 2, TokenType::Keyword)]);
    assert!(highlighter.set_language(&rust_language(), "(identifier) @function"));
    assert_eq!(highlighter.highlight("fn f() {}"), vec![hl(3, 4, TokenType::Function)]);
    assert_eq!(highlighter.fresh_parses(), 2);
}
