use gitlogue::buffer::{EditStep, PlaybackBuffer};
use gitlogue::diff::{DiffLine, FileChange, FileStatus, Hunk, LineTag};
use gitlogue::script::{build_script, new_side_matches, old_side_matches, ScriptError};
use gitlogue::snapshot::DiffSnapshot;

fn snapshot_of(old_text: &str, new_text: &str) -> DiffSnapshot {
    DiffSnapshot::new(old_text, new_text, vec![], vec![]).unwrap()
}

fn change_of(hunks: Vec<Vec<DiffLine>>) -> FileChange {
    FileChange::new(
        "src/lib.rs".to_string(),
        FileStatus::Modified,
        hunks.into_iter().map(Hunk::new).collect(),
    )
}

fn type_steps(line: &str) -> Vec<EditStep> {
    let mut steps: Vec<EditStep> = line.chars().map(EditStep::TypeChar).collect();
    steps.push(EditStep::TypeChar('\n'));
    steps
}

fn lines_of(text: &str) -> Vec<String> {
    text.lines().map(|l| l.to_string()).collect()
}

/// Replays `script` on the old text and checks, after every step, that the
/// lines above the cursor are new lines and the lines below it old lines.
fn check_run(old_text: &str, new_text: &str, change: &FileChange) -> PlaybackBuffer {
    let snapshot = snapshot_of(old_text, new_text);
    let script = build_script(change, &snapshot).unwrap();
    let old_lines = lines_of(old_text);
    let new_lines = lines_of(new_text);
    let mut buffer = PlaybackBuffer::new(snapshot);
    assert_eq!(buffer.text_lines(), old_lines);
    for step in script {
        buffer.apply_step(step);
        let lines = buffer.text_lines();
        let cl = buffer.cursor_line();
        let col = buffer.cursor_col();
        let offset = buffer.line_offset();
        assert_eq!(offset, lines.len() as isize - old_lines.len() as isize);
        assert_eq!(&lines[..cl], &new_lines[..cl]);
        let below = if col == 0 {
            cl
        } else {
            let typed: String = new_lines[cl].chars().take(col).collect();
            assert_eq!(lines[cl], typed);
            cl + 1
        };
        let from = (below as isize - offset) as usize;
        assert_eq!(&lines[below..], &old_lines[from..]);
    }
    assert_eq!(buffer.text_lines(), new_lines);
    buffer
}

#[test]
fn replace_one_line_by_two() {
    let snapshot = snapshot_of("foo()\n", "bar()\nbaz()\n");
    let change = change_of(vec![vec![
        DiffLine::removed("foo()"),
        DiffLine::added("bar()"),
        DiffLine::added("baz()"),
    ]]);
    let script = build_script(&change, &snapshot).unwrap();
    let mut expected = vec![EditStep::DeleteLine];
    expected.extend(type_steps("bar()"));
    expected.extend(type_steps("baz()"));
    assert_eq!(script, expected);

    let mut buffer = PlaybackBuffer::new(snapshot);
    assert_eq!(buffer.text_lines(), vec!["foo()".to_string()]);
    buffer.apply_step(script[0]);
    assert_eq!((buffer.cursor_line(), buffer.cursor_col()), (0, 0));
    assert_eq!(buffer.text_lines(), Vec::<String>::new());
    assert_eq!(buffer.line_offset(), -1);
    for step in &script[1..7] {
        buffer.apply_step(*step);
    }
    assert_eq!((buffer.cursor_line(), buffer.cursor_col()), (1, 0));
    assert_eq!(buffer.line_offset(), 0);
    for step in &script[7..] {
        buffer.apply_step(*step);
    }
    assert_eq!((buffer.cursor_line(), buffer.cursor_col()), (2, 0));
    assert_eq!(buffer.line_offset(), 1);
    assert_eq!(buffer.text_lines(), vec!["bar()".to_string(), "baz()".to_string()]);
}

#[test]
fn typing_in_the_middle_of_a_line() {
    let snapshot = snapshot_of("foo()\nend\n", "bar()\nend\n");
    let mut buffer = PlaybackBuffer::new(snapshot);
    buffer.apply_step(EditStep::DeleteLine);
    buffer.apply_step(EditStep::TypeChar('b'));
    assert_eq!(buffer.text_lines(), vec!["b".to_string(), "end".to_string()]);
    assert_eq!((buffer.cursor_line(), buffer.cursor_col()), (0, 1));
    assert_eq!(buffer.line_offset(), 0);
    buffer.apply_step(EditStep::TypeChar('a'));
    assert_eq!(buffer.text_lines(), vec!["ba".to_string(), "end".to_string()]);
    assert_eq!((buffer.cursor_line(), buffer.cursor_col()), (0, 2));
}

#[test]
fn completion_with_context_and_several_hunks() {
    let old_text = "use a;\nfn f() {\n    old();\n}\n\nfn g() {}\nlast\n";
    let new_text = "use a;\nuse b;\nfn f() {\n    new();\n    more();\n}\n\nlast\n";
    let change = change_of(vec![
        vec![
            DiffLine::context("use a;"),
            DiffLine::added("use b;"),
            DiffLine::context("fn f() {"),
            DiffLine::removed("    old();"),
            DiffLine::added("    new();"),
            DiffLine::added("    more();"),
            DiffLine::context("}"),
        ],
        vec![DiffLine::context(""), DiffLine::removed("fn g() {}"), DiffLine::context("last")],
    ]);
    let buffer = check_run(old_text, new_text, &change);
    assert_eq!(buffer.cursor_line(), 8);
    assert_eq!(buffer.cursor_col(), 0);
    assert_eq!(buffer.line_offset(), 1);
}

#[test]
fn completion_with_unicode_text() {
    let old_text = "let s = \"héllo\";\n";
    let new_text = "let s = \"日本語 🎉\";\nlet t = 'ß';";
    let change = change_of(vec![vec![
        DiffLine::removed("let s = \"héllo\";"),
        DiffLine::added("let s = \"日本語 🎉\";"),
        DiffLine::added("let t = 'ß';"),
    ]]);
    check_run(old_text, new_text, &change);
}

#[test]
fn completion_of_an_added_file() {
    let change = change_of(vec![vec![
        DiffLine::added("first"),
        DiffLine::added(""),
        DiffLine::added("third"),
    ]]);
    let buffer = check_run("", "first\n\nthird\n", &change);
    assert_eq!(buffer.line_offset(), 3);
}

#[test]
fn completion_of_a_deleted_file() {
    let change = change_of(vec![vec![DiffLine::removed("a"), DiffLine::removed("b")]]);
    let buffer = check_run("a\nb\n", "", &change);
    assert_eq!(buffer.line_offset(), -2);
    assert_eq!(buffer.cursor_line(), 0);
}

#[test]
fn deletions_come_before_insertions_in_every_run() {
    let snapshot = snapshot_of("a\nk\nb\n", "x\nk\ny\n");
    let change = change_of(vec![vec![
        DiffLine::added("x"),
        DiffLine::removed("a"),
        DiffLine::context("k"),
        DiffLine::removed("b"),
        DiffLine::added("y"),
    ]]);
    let script = build_script(&change, &snapshot).unwrap();
    assert_eq!(
        script,
        vec![
            EditStep::DeleteLine,
            EditStep::TypeChar('x'),
            EditStep::TypeChar('\n'),
            EditStep::SkipContextLine,
            EditStep::DeleteLine,
            EditStep::TypeChar('y'),
            EditStep::TypeChar('\n'),
        ]
    );
}

#[test]
fn line_offset_grows_by_one_over_a_hunk_of_one_deletion_and_two_insertions() {
    let old_text = "keep\nold\nz\n";
    let new_text = "keep\nnew1\nnew2\nzz\n";
    let snapshot = snapshot_of(old_text, new_text);
    let first = vec![
        DiffLine::context("keep"),
        DiffLine::removed("old"),
        DiffLine::added("new1"),
        DiffLine::added("new2"),
    ];
    let second = vec![DiffLine::removed("z"), DiffLine::added("zz")];
    let change = change_of(vec![first, second]);
    let script = build_script(&change, &snapshot).unwrap();
    let first_len = 1 + 1 + 5 + 5;
    let mut buffer = PlaybackBuffer::new(snapshot);
    let before = buffer.line_offset();
    for step in &script[..first_len] {
        buffer.apply_step(*step);
    }
    assert_eq!(buffer.line_offset(), before + 1);
    let middle = buffer.line_offset();
    for step in &script[first_len..] {
        buffer.apply_step(*step);
    }
    assert_eq!(buffer.line_offset(), middle);
    assert_eq!(buffer.text_lines(), lines_of(new_text));
}

#[test]
fn a_change_that_contradicts_the_old_text_is_refused() {
    let snapshot = snapshot_of("foo()\n", "bar()\n");
    let change = change_of(vec![vec![DiffLine::removed("fop()"), DiffLine::added("bar()")]]);
    assert_eq!(build_script(&change, &snapshot), Err(ScriptError::OldTextMismatch));
    assert!(!old_side_matches(&change, &snapshot));
    assert!(new_side_matches(&change, &snapshot));
}

#[test]
fn a_change_that_leaves_old_lines_out_is_refused() {
    let snapshot = snapshot_of("a\nb\n", "a\n");
    let change = change_of(vec![vec![DiffLine::context("a")]]);
    assert_eq!(build_script(&change, &snapshot), Err(ScriptError::OldTextMismatch));
    let too_long = change_of(vec![vec![
        DiffLine::context("a"),
        DiffLine::removed("b"),
        DiffLine::removed("c"),
    ]]);
    assert_eq!(build_script(&too_long, &snapshot), Err(ScriptError::OldTextMismatch));
}

#[test]
fn a_change_that_contradicts_the_new_text_is_refused() {
    let snapshot = snapshot_of("foo()\n", "bar()\n");
    let change = change_of(vec![vec![DiffLine::removed("foo()"), DiffLine::added("baz()")]]);
    assert_eq!(build_script(&change, &snapshot), Err(ScriptError::NewTextMismatch));
    let both = change_of(vec![vec![DiffLine::removed("x"), DiffLine::added("y")]]);
    assert_eq!(build_script(&both, &snapshot), Err(ScriptError::OldTextMismatch));
}

#[test]
fn an_empty_change_between_empty_texts_has_an_empty_script() {
    let snapshot = snapshot_of("", "");
    let change = change_of(vec![]);
    assert_eq!(build_script(&change, &snapshot), Ok(vec![]));
}

#[test]
fn steps_that_do_not_apply_leave_the_buffer_alone() {
    let mut buffer = PlaybackBuffer::new(snapshot_of("", ""));
    buffer.apply_step(EditStep::SkipContextLine);
    buffer.apply_step(EditStep::DeleteLine);
    assert_eq!(buffer.text_lines(), Vec::<String>::new());
    assert_eq!((buffer.cursor_line(), buffer.cursor_col(), buffer.line_offset()), (0, 0, 0));
}

#[test]
fn a_revealed_buffer_holds_the_new_text() {
    let buffer = PlaybackBuffer::revealed(snapshot_of("a\n", "x\ny\nz\n"));
    assert_eq!(buffer.text_lines(), lines_of("x\ny\nz\n"));
    assert_eq!(buffer.cursor_line(), 3);
    assert_eq!(buffer.cursor_col(), 0);
    assert_eq!(buffer.line_offset(), 2);
    assert_eq!(buffer.scroll_offset(), 0);
}

#[test]
fn scrolling_follows_the_cursor() {
    let mut buffer = PlaybackBuffer::new(snapshot_of("a\nb\nc\nd\ne\nf\n", "a\nb\nc\nd\ne\nf\n"));
    for _ in 0..4 {
        buffer.apply_step(EditStep::SkipContextLine);
        buffer.scroll_to_cursor(3);
    }
    assert_eq!(buffer.cursor_line(), 4);
    assert_eq!(buffer.scroll_offset(), 2);
    assert_eq!(gitlogue::scroll::update_scroll(4, 0, 3), 2);
    assert_eq!(gitlogue::scroll::update_scroll(2, 0, 3), 0);
    assert_eq!(gitlogue::scroll::update_scroll(3, 0, 3), 1);
    assert_eq!(gitlogue::scroll::update_scroll(1, 5, 3), 1);
    assert_eq!(gitlogue::scroll::update_scroll(5, 5, 3), 5);
    assert_eq!(gitlogue::scroll::update_scroll(7, 5, 0), 8);
}

#[test]
fn the_tag_of_a_line_is_the_one_it_was_made_with() {
    let line = DiffLine::new("x".to_string(), LineTag::Removed);
    assert_eq!(line.tag(), LineTag::Removed);
    assert_eq!(line.content(), "x");
    assert_eq!(DiffLine::context("c").tag(), LineTag::Context);
    assert_eq!(DiffLine::added("a").tag(), LineTag::Added);
}

#[test]
fn a_snapshot_holds_lines_and_line_starts() {
    let snapshot = DiffSnapshot::new("ab\n\nçd", "x\n", vec![], vec![]).unwrap();
    assert_eq!(snapshot.old_line_count(), 3);
    assert_eq!(snapshot.new_line_count(), 1);
    assert_eq!(snapshot.old_offsets(), &vec![0, 3, 4]);
    assert_eq!(snapshot.new_offsets(), &vec![0]);
    assert_eq!(snapshot.old_line(2), &vec!['ç', 'd']);
    let empty = DiffSnapshot::empty();
    assert_eq!(empty.old_line_count(), 0);
    assert_eq!(empty.new_offsets(), &Vec::<usize>::new());
}
