use gitlogue::text::{
    char_len_utf8, chars_eq, chars_of, decimal_of, line_byte_len, line_offsets_of, lines_of,
    str_is, string_of, strings_of, wide_byte_len,
};

fn chars(s: &str) -> Vec<char> {
    s.chars().collect()
}

#[test]
fn characters_have_their_encoded_lengths() {
    assert_eq!(char_len_utf8('a'), 1);
    assert_eq!(char_len_utf8('\u{7f}'), 1);
    assert_eq!(char_len_utf8('\u{80}'), 2);
    assert_eq!(char_len_utf8('é'), 2);
    assert_eq!(char_len_utf8('\u{7ff}'), 2);
    assert_eq!(char_len_utf8('\u{800}'), 3);
    assert_eq!(char_len_utf8('日'), 3);
    assert_eq!(char_len_utf8('\u{ffff}'), 3);
    assert_eq!(char_len_utf8('\u{10000}'), 4);
    assert_eq!(char_len_utf8('🎉'), 4);
    for c in ['a', 'é', '日', '🎉', '\u{10ffff}'] {
        assert_eq!(char_len_utf8(c), c.len_utf8());
    }
}

#[test]
fn lines_have_their_byte_lengths() {
    assert_eq!(line_byte_len(&chars("")), Some(0));
    assert_eq!(line_byte_len(&chars("héllo 日本 🎉")), Some("héllo 日本 🎉".len()));
    assert_eq!(wide_byte_len(&chars("aé日🎉")), 10);
}

#[test]
fn strings_and_characters_convert_both_ways() {
    assert_eq!(chars_of("aé日🎉"), vec!['a', 'é', '日', '🎉']);
    assert_eq!(chars_of(""), Vec::<char>::new());
    assert_eq!(string_of(&vec!['a', 'é', '日', '🎉']), "aé日🎉");
    assert_eq!(string_of(&vec![]), "");
    assert_eq!(
        strings_of(&vec![chars("x y"), chars(""), chars("ß")]),
        vec!["x y".to_string(), String::new(), "ß".to_string()]
    );
    assert!(chars_eq(&chars("abc"), &chars("abc")));
    assert!(!chars_eq(&chars("abc"), &chars("abd")));
    assert!(!chars_eq(&chars("abc"), &chars("ab")));
    assert!(chars_eq(&chars(""), &chars("")));
    assert!(str_is("asc", "asc"));
    assert!(!str_is("asc", "desc"));
}

#[test]
fn a_text_splits_into_its_lines() {
    assert_eq!(lines_of(""), Vec::<Vec<char>>::new());
    assert_eq!(lines_of("a"), vec![chars("a")]);
    assert_eq!(lines_of("a\n"), vec![chars("a")]);
    assert_eq!(lines_of("\n"), vec![chars("")]);
    assert_eq!(lines_of("\n\n"), vec![chars(""), chars("")]);
    assert_eq!(lines_of("a\n\nb"), vec![chars("a"), chars(""), chars("b")]);
    assert_eq!(lines_of("a\r\nb\n"), vec![chars("a\r"), chars("b")]);
    assert_eq!(lines_of("日本\n語"), vec![chars("日本"), chars("語")]);
}

#[test]
fn line_starts_count_bytes() {
    assert_eq!(line_offsets_of(&vec![]), Some(vec![]));
    assert_eq!(line_offsets_of(&lines_of("ab\n\ncd\n")), Some(vec![0, 3, 4]));
    assert_eq!(line_offsets_of(&lines_of("é\n日本\n🎉")), Some(vec![0, 3, 10]));
}

#[test]
fn numbers_are_written_in_decimal() {
    assert_eq!(string_of(&decimal_of(0)), "0");
    assert_eq!(string_of(&decimal_of(7)), "7");
    assert_eq!(string_of(&decimal_of(10)), "10");
    assert_eq!(string_of(&decimal_of(1234567890123)), "1234567890123");
    assert_eq!(string_of(&decimal_of(u128::MAX)), u128::MAX.to_string());
}
