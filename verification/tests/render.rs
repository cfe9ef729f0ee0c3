use gitlogue::commit::CommitMetadata;
use gitlogue::diff::{DiffLine, FileChange, FileStatus, Hunk};
use gitlogue::engine::{AnimationEngine, FilePlayback, PlaybackPolicy};
use gitlogue::order::PlaybackOrder;
use gitlogue::panes::editor::{EditorPane, HighlightContext};
use gitlogue::panes::file_tree::FileTreePane;
use gitlogue::panes::status_bar::{char_is_space, line_is_blank, StatusBarPane};
use gitlogue::panes::terminal::TerminalPane;
use gitlogue::snapshot::DiffSnapshot;
use gitlogue::style::{spans_width, StyledSpan};
use gitlogue::syntax::{HighlightSpan, TokenType};
use gitlogue::theme::{apply_opacity, Color, Opacity, Theme};

fn span(content: &str, fg: Option<Color>, bg: Option<Color>, bold: bool) -> StyledSpan {
    StyledSpan::styled(content.to_string(), fg, bg, bold)
}

fn hl(start: usize, end: usize, token_type: TokenType) -> HighlightSpan {
    HighlightSpan { start, end, token_type }
}

fn engine_with(
    old_text: &str,
    new_text: &str,
    lines: Vec<DiffLine>,
    old_highlights: Vec<HighlightSpan>,
    new_highlights: Vec<HighlightSpan>,
) -> AnimationEngine {
    let policy = PlaybackPolicy { instant_context: false, typed_terminal: false, blink_period: 0 };
    let mut engine = AnimationEngine::new(PlaybackOrder::Asc, false, 1, 10, policy);
    let file = FilePlayback {
        change: FileChange::new("a.rs".to_string(), FileStatus::Modified, vec![Hunk::new(lines)]),
        snapshot: DiffSnapshot::new(old_text, new_text, old_highlights, new_highlights).unwrap(),
        command: "edit a.rs".to_string(),
    };
    assert!(engine.load_commit(vec![file]));
    engine
}

#[test]
fn opacity_is_full_on_the_cursor_line_and_half_from_twenty_lines_on() {
    let fg = Color::Rgb(200, 100, 51);
    let bg = Color::Rgb(100, 50, 50);
    assert_eq!(Opacity::full().get_parts(), 40);
    assert_eq!(Opacity::at_distance(7, 7).get_parts(), 40);
    assert_eq!(apply_opacity(fg, Opacity::at_distance(7, 7), bg), fg);
    assert_eq!(apply_opacity(fg, Opacity::full(), bg), fg);
    let half = Color::Rgb(150, 75, 50);
    assert_eq!(Opacity::at_distance(27, 7).get_parts(), 20);
    assert_eq!(apply_opacity(fg, Opacity::at_distance(27, 7), bg), half);
    assert_eq!(apply_opacity(fg, Opacity::at_distance(7, 27), bg), half);
    assert_eq!(apply_opacity(fg, Opacity::at_distance(1000, 7), bg), half);
    assert_eq!(apply_opacity(fg, Opacity::at_distance(0, usize::MAX), bg), half);
}

#[test]
fn opacity_fades_by_the_distance_on_either_side() {
    let fg = Color::Rgb(158, 206, 106);
    let bg = Color::Rgb(26, 27, 38);
    for d in 0..30usize {
        assert_eq!(Opacity::at_distance(50 + d, 50), Opacity::at_distance(50 - d, 50));
        let parts = Opacity::at_distance(50 + d, 50).get_parts();
        assert_eq!(parts as usize, 40 - d.min(20));
    }
    assert_eq!(apply_opacity(fg, Opacity::at_distance(1, 0), bg), Color::Rgb(154, 201, 104));
    assert_eq!(apply_opacity(fg, Opacity::at_distance(10, 0), bg), Color::Rgb(125, 161, 89));
}

#[test]
fn only_colors_of_three_channels_are_blended() {
    let rgb = Color::Rgb(10, 20, 30);
    let faded = Opacity::at_distance(30, 0);
    assert_eq!(apply_opacity(Color::Red, faded, rgb), Color::Red);
    assert_eq!(apply_opacity(rgb, faded, Color::Reset), rgb);
    assert_eq!(apply_opacity(Color::Indexed(7), faded, Color::Indexed(9)), Color::Indexed(7));
}

#[test]
fn the_theme_gives_each_token_kind_its_color() {
    let theme = Theme::tokyo_night();
    assert_eq!(theme, Theme::default());
    assert_eq!(theme.background_left, Color::Rgb(30, 34, 54));
    assert_eq!(theme.background_right, Color::Rgb(26, 27, 38));
    assert_eq!(theme.editor_cursor_line_bg, Color::Rgb(42, 47, 68));
    assert_eq!(theme.file_tree_deleted, Color::Rgb(247, 118, 142));
    assert_eq!(theme.status_hash, Color::Rgb(255, 213, 128));
    assert_eq!(TokenType::Keyword.color(&theme), Color::Rgb(187, 154, 247));
    assert_eq!(TokenType::Type.color(&theme), Color::Rgb(125, 207, 255));
    assert_eq!(TokenType::Function.color(&theme), Color::Rgb(122, 162, 247));
    assert_eq!(TokenType::Variable.color(&theme), Color::Rgb(192, 202, 245));
    assert_eq!(TokenType::String.color(&theme), Color::Rgb(158, 206, 106));
    assert_eq!(TokenType::Number.color(&theme), Color::Rgb(255, 158, 100));
    assert_eq!(TokenType::Comment.color(&theme), Color::Rgb(86, 95, 137));
    assert_eq!(TokenType::Operator.color(&theme), Color::Rgb(125, 207, 255));
    assert_eq!(TokenType::Punctuation.color(&theme), Color::Rgb(140, 148, 184));
    assert_eq!(TokenType::Constant.color(&theme), Color::Rgb(255, 158, 100));
    assert_eq!(TokenType::Parameter.color(&theme), Color::Rgb(255, 213, 128));
    assert_eq!(TokenType::Property.color(&theme), Color::Rgb(158, 206, 106));
    assert_eq!(TokenType::Label.color(&theme), Color::Rgb(187, 154, 247));
}

#[test]
fn the_cursor_decides_which_highlights_a_line_takes() {
    let pane = EditorPane;
    let old = vec![hl(0, 1, TokenType::String)];
    let new = vec![hl(0, 1, TokenType::Keyword)];
    let old_offsets = vec![0usize, 3];
    let new_offsets = vec![0usize, 5, 9];
    for (line_num, cursor_line) in [(0usize, 0usize), (2, 5), (5, 5)] {
        let (h, o) = pane.select_highlights_and_offsets(
            line_num,
            cursor_line,
            &old,
            &new,
            &old_offsets,
            &new_offsets,
        );
        assert_eq!(h, &new[..]);
        assert_eq!(o, &new_offsets[..]);
    }
    for (line_num, cursor_line) in [(1usize, 0usize), (6, 5), (usize::MAX, 5)] {
        let (h, o) = pane.select_highlights_and_offsets(
            line_num,
            cursor_line,
            &old,
            &new,
            &old_offsets,
            &new_offsets,
        );
        assert_eq!(h, &old[..]);
        assert_eq!(o, &old_offsets[..]);
    }
}

#[test]
fn byte_offsets_are_looked_up_with_the_line_offset_and_clamped() {
    let pane = EditorPane;
    let table = vec![0usize, 10, 25, 40];
    assert_eq!(pane.calculate_byte_offset(2, 5, 7, &table), 25);
    assert_eq!(pane.calculate_byte_offset(5, 5, 7, &table), 40);
    assert_eq!(pane.calculate_byte_offset(3, 1, 1, &table), 25);
    assert_eq!(pane.calculate_byte_offset(3, 1, -1, &table), 40);
    assert_eq!(pane.calculate_byte_offset(3, 1, 2, &table), 10);
    assert_eq!(pane.calculate_byte_offset(3, 1, 9, &table), 0);
    assert_eq!(pane.calculate_byte_offset(9, 1, 0, &table), 40);
    assert_eq!(pane.calculate_byte_offset(usize::MAX, 1, isize::MIN, &table), 40);
    assert_eq!(pane.calculate_byte_offset(usize::MAX, 1, isize::MAX, &table), 40);
    assert_eq!(pane.calculate_byte_offset(0, 0, 0, &[]), 0);
    assert_eq!(pane.calculate_byte_offset(3, 0, 1, &[]), 0);
}

#[test]
fn the_spans_that_overlap_a_line_are_kept_in_order() {
    let pane = EditorPane;
    let spans = vec![
        hl(0, 10, TokenType::Comment),
        hl(5, 12, TokenType::Keyword),
        hl(10, 11, TokenType::Type),
        hl(12, 20, TokenType::String),
        hl(19, 30, TokenType::Number),
        hl(20, 21, TokenType::Label),
        hl(15, 15, TokenType::Operator),
    ];
    assert_eq!(
        pane.filter_line_highlights(&spans, 10, 10),
        vec![
            (5, 12, TokenType::Keyword),
            (10, 11, TokenType::Type),
            (12, 20, TokenType::String),
            (19, 30, TokenType::Number),
            (15, 15, TokenType::Operator),
        ]
    );
    assert_eq!(pane.filter_line_highlights(&spans, 10, 0), vec![(5, 12, TokenType::Keyword)]);
    assert_eq!(pane.filter_line_highlights(&spans, 40, 5), vec![]);
    assert_eq!(pane.filter_line_highlights(&[], 0, 100), vec![]);
    assert_eq!(
        pane.filter_line_highlights(&spans, usize::MAX - 1, usize::MAX),
        Vec::<(usize, usize, TokenType)>::new()
    );
}

#[test]
fn a_character_takes_the_color_of_the_first_span_that_holds_it() {
    let pane = EditorPane;
    let theme = Theme::tokyo_night();
    let spans = vec![
        (2, 4, TokenType::Keyword),
        (0, 10, TokenType::Comment),
        (3, 6, TokenType::String),
    ];
    assert_eq!(pane.get_char_color(2, 3, &spans, &theme), theme.syntax_keyword);
    assert_eq!(pane.get_char_color(3, 4, &spans, &theme), theme.syntax_keyword);
    assert_eq!(pane.get_char_color(4, 5, &spans, &theme), theme.syntax_comment);
    assert_eq!(pane.get_char_color(3, 6, &spans, &theme), theme.syntax_comment);
    assert_eq!(pane.get_char_color(9, 12, &spans, &theme), theme.syntax_variable);
    assert_eq!(pane.get_char_color(0, 1, &[], &theme), theme.syntax_variable);
}

#[test]
fn lines_down_to_the_cursor_draw_from_the_new_set_and_the_others_from_the_old() {
    let pane = EditorPane;
    let theme = Theme::tokyo_night();
    let line: Vec<char> = "ab".chars().collect();
    let old = vec![hl(0, 1, TokenType::String), hl(3, 4, TokenType::Comment)];
    let new = vec![hl(0, 1, TokenType::Keyword), hl(3, 4, TokenType::Number)];
    let old_offsets = vec![0usize, 3];
    let new_offsets = vec![0usize, 3];
    let ctx = |line_num: usize, cursor_line: usize| HighlightContext {
        line_content: &line,
        line_num,
        is_cursor_line: line_num == cursor_line,
        show_cursor: false,
        cursor_col: 0,
        cursor_line,
        old_highlights: &old,
        new_highlights: &new,
        old_line_offsets: &old_offsets,
        new_line_offsets: &new_offsets,
        line_offset: 0,
        theme: &theme,
        distance_opacity: Opacity::full(),
    };
    let plain = Some(theme.syntax_variable);
    let on_cursor = pane.highlight_line(&ctx(0, 0));
    let line_bg = Some(theme.editor_cursor_line_bg);
    assert_eq!(
        on_cursor,
        vec![span("a", Some(theme.syntax_keyword), line_bg, false), span("b", plain, line_bg, false)]
    );
    let above = pane.highlight_line(&ctx(1, 4));
    assert_eq!(
        above,
        vec![span("a", Some(theme.syntax_number), None, false), span("b", plain, None, false)]
    );
    let below_first = pane.highlight_line(&ctx(1, 0));
    assert_eq!(
        below_first,
        vec![span("a", Some(theme.syntax_comment), None, false), span("b", plain, None, false)]
    );
    let below = pane.highlight_line(&HighlightContext { line_offset: 2, ..ctx(2, 1) });
    assert_eq!(
        below,
        vec![span("a", Some(theme.syntax_string), None, false), span("b", plain, None, false)]
    );
}

#[test]
fn characters_of_several_bytes_are_colored_as_a_whole() {
    let pane = EditorPane;
    let theme = Theme::tokyo_night();
    let line: Vec<char> = "é日x".chars().collect();
    let new = vec![hl(0, 1, TokenType::Keyword), hl(2, 5, TokenType::String), hl(5, 6, TokenType::Type)];
    let offsets = vec![0usize];
    let ctx = HighlightContext {
        line_content: &line,
        line_num: 0,
        is_cursor_line: false,
        show_cursor: false,
        cursor_col: 0,
        cursor_line: 3,
        old_highlights: &[],
        new_highlights: &new,
        old_line_offsets: &[],
        new_line_offsets: &offsets,
        line_offset: 0,
        theme: &theme,
        distance_opacity: Opacity::full(),
    };
    assert_eq!(
        pane.highlight_line(&ctx),
        vec![
            span("é", Some(theme.syntax_variable), None, false),
            span("日", Some(theme.syntax_string), None, false),
            span("x", Some(theme.syntax_type), None, false),
        ]
    );
}

#[test]
fn the_cursor_shows_on_its_character_or_behind_the_line() {
    let pane = EditorPane;
    let theme = Theme::tokyo_night();
    let line: Vec<char> = "ab".chars().collect();
    let offsets = vec![0usize];
    let ctx = |cursor_col: usize| HighlightContext {
        line_content: &line,
        line_num: 0,
        is_cursor_line: true,
        show_cursor: true,
        cursor_col,
        cursor_line: 0,
        old_highlights: &[],
        new_highlights: &[],
        old_line_offsets: &[],
        new_line_offsets: &offsets,
        line_offset: 0,
        theme: &theme,
        distance_opacity: Opacity::full(),
    };
    let cursor_fg = Some(theme.editor_cursor_char_fg);
    let cursor_bg = Some(theme.editor_cursor_char_bg);
    let plain = Some(theme.syntax_variable);
    let line_bg = Some(theme.editor_cursor_line_bg);
    assert_eq!(
        pane.highlight_line(&ctx(1)),
        vec![span("a", plain, line_bg, false), span("b", cursor_fg, cursor_bg, true)]
    );
    assert_eq!(
        pane.highlight_line(&ctx(2)),
        vec![
            span("a", plain, line_bg, false),
            span("b", plain, line_bg, false),
            span(" ", cursor_fg, cursor_bg, true),
        ]
    );
}

#[test]
fn line_numbers_are_right_aligned() {
    let pane = EditorPane;
    let theme = Theme::tokyo_night();
    let on_cursor = pane.render_line_number(6, true, 3, &theme, Opacity::full());
    assert_eq!(
        on_cursor,
        span(
            "  7 ",
            Some(theme.editor_line_number_cursor),
            Some(theme.editor_cursor_line_bg),
            true
        )
    );
    let far = pane.render_line_number(99, false, 3, &theme, Opacity::at_distance(99, 0));
    assert_eq!(far, span("100 ", Some(Color::Rgb(56, 61, 87)), None, false));
    let wide = pane.render_line_number(12344, false, 3, &theme, Opacity::full());
    assert_eq!(wide.content, "12345 ");
    let padded = pane.render_line_number(0, false, 6, &theme, Opacity::full());
    assert_eq!(padded.content, "     1 ");
    assert_eq!(padded.fg, Some(theme.editor_line_number));
}

#[test]
fn the_editor_shows_the_lines_from_the_scroll_offset_on() {
    let theme = Theme::tokyo_night();
    let lines = vec![DiffLine::context("ab"), DiffLine::context("日本"), DiffLine::context("c")];
    let mut engine = engine_with("ab\n日本\nc\n", "ab\n日本\nc\n", lines, vec![], vec![]);
    let pane = EditorPane;
    let shown = pane.render(20, 4, &engine, &theme);
    assert_eq!(shown.len(), 2);
    let line_bg = Some(theme.editor_cursor_line_bg);
    assert_eq!(
        shown[0],
        vec![
            span("  ", None, line_bg, false),
            span("  1 ", Some(theme.editor_line_number_cursor), line_bg, true),
            span("  ", Some(theme.editor_separator), line_bg, false),
            span("a", Some(theme.editor_cursor_char_fg), Some(theme.editor_cursor_char_bg), true),
            span("b", Some(theme.syntax_variable), line_bg, false),
            span("  ", None, line_bg, false),
            span("        ", None, line_bg, false),
        ]
    );
    assert_eq!(
        shown[1],
        vec![
            span("  ", None, None, false),
            span("  2 ", Some(Color::Rgb(84, 93, 134)), None, false),
            span("  ", Some(Color::Rgb(84, 93, 134)), None, false),
            span("日", Some(Color::Rgb(187, 197, 239)), None, false),
            span("本", Some(Color::Rgb(187, 197, 239)), None, false),
            span("  ", None, None, false),
        ]
    );
    assert_eq!(pane.render(20, 2, &engine, &theme), Vec::<Vec<StyledSpan>>::new());
    assert_eq!(pane.render(20, 50, &engine, &theme).len(), 3);

    engine.set_viewport_height(1);
    engine.tick(0);
    assert_eq!(engine.get_buffer().scroll_offset(), 1);
    let scrolled = pane.render(16, 50, &engine, &theme);
    assert_eq!(scrolled.len(), 2);
    assert_eq!(scrolled[0][1].content, "  2 ");
    assert_eq!(scrolled[0].len(), 7);
    assert_eq!(scrolled[0][6], span("  ", None, line_bg, false));
    assert_eq!(spans_width(&scrolled[0]), Some(16));
    let narrow = pane.render(14, 50, &engine, &theme);
    assert_eq!(narrow[0].len(), 6);
}

#[test]
fn the_terminal_shows_the_last_lines_of_the_transcript() {
    let theme = Theme::tokyo_night();
    let idle = AnimationEngine::new(
        PlaybackOrder::Asc,
        false,
        1,
        10,
        PlaybackPolicy { instant_context: false, typed_terminal: false, blink_period: 0 },
    );
    let pane = TerminalPane;
    assert_eq!(pane.render(10, &idle, &theme), vec![Vec::<StyledSpan>::new()]);

    let mut engine = engine_with("a\n", "a\n", vec![DiffLine::context("a")], vec![], vec![]);
    let command = span("~ edit a.rs", Some(theme.terminal_command), None, false);
    assert_eq!(pane.render(10, &engine, &theme), vec![vec![command]]);
    engine.switch_pane();
    let command = span("~ edit a.rs", Some(theme.terminal_command), None, false);
    let cursor = span(" ", Some(theme.terminal_cursor_fg), Some(theme.terminal_cursor_bg), true);
    assert_eq!(pane.render(10, &engine, &theme), vec![vec![command, cursor]]);
    assert_eq!(pane.render(3, &engine, &theme).len(), 1);
    assert_eq!(pane.render(2, &engine, &theme).len(), 0);
    assert_eq!(pane.render(0, &engine, &theme).len(), 0);
}

#[test]
fn the_status_bar_shows_the_commit() {
    let theme = Theme::tokyo_night();
    let pane = StatusBarPane;
    let meta = CommitMetadata {
        hash: "0123456789abcdef".to_string(),
        author: "Ada".to_string(),
        date: "2024-01-02 03:04:05".to_string(),
        message: "Fix the bug\r\n\n  \t\nsecond line\n".to_string(),
        changes: vec![],
    };
    assert_eq!(
        pane.render(Some(&meta), &theme),
        vec![
            vec![span("hash: ", None, None, false), span("0123456", Some(theme.status_hash), None, false)],
            vec![span("author: ", None, None, false), span("Ada", Some(theme.status_author), None, false)],
            vec![
                span("date: ", None, None, false),
                span("2024-01-02 03:04:05", Some(theme.status_date), None, false),
            ],
            vec![span("Fix the bug", Some(theme.status_message), None, false)],
            vec![span("second line", Some(theme.status_message), None, false)],
        ]
    );
    let short = CommitMetadata {
        hash: "abc".to_string(),
        author: String::new(),
        date: String::new(),
        message: "one\r".to_string(),
        changes: vec![],
    };
    let lines = pane.render(Some(&short), &theme);
    assert_eq!(lines.len(), 4);
    assert_eq!(lines[0][1].content, "abc");
    assert_eq!(lines[3][0].content, "one\r");
    assert_eq!(
        pane.render(None, &theme),
        vec![vec![span("No commit loaded", Some(theme.status_no_commit), None, false)]]
    );
}

#[test]
fn blank_lines_hold_white_space_only() {
    for c in [' ', '\t', '\n', '\r', '\u{b}', '\u{c}', '\u{85}', '\u{a0}', '\u{2003}', '\u{3000}'] {
        assert!(char_is_space(c));
    }
    for c in ['a', '0', '_', '\u{200b}', '\u{feff}', '\u{1}'] {
        assert!(!char_is_space(c));
    }
    for c in ['\u{0}', '\u{8}', '\u{e}', '\u{1f}', '\u{21}', '\u{1680}', '\u{2028}', '\u{205f}'] {
        assert_eq!(char_is_space(c), c.is_whitespace());
    }
    assert!(line_is_blank(&vec![]));
    assert!(line_is_blank(&vec![' ', '\t']));
    assert!(!line_is_blank(&vec![' ', 'x', ' ']));
}

fn change(path: &str, status: FileStatus, added: usize, removed: usize) -> FileChange {
    let mut lines = vec![DiffLine::context("c")];
    for _ in 0..added {
        lines.push(DiffLine::added("a"));
    }
    let mut more = vec![];
    for _ in 0..removed {
        more.push(DiffLine::removed("r"));
    }
    FileChange::new(path.to_string(), status, vec![Hunk::new(lines), Hunk::new(more)])
}

#[test]
fn the_file_tree_groups_the_files_by_directory() {
    let theme = Theme::tokyo_night();
    let meta = CommitMetadata {
        hash: String::new(),
        author: String::new(),
        date: String::new(),
        message: String::new(),
        changes: vec![
            change("src/main.rs", FileStatus::Modified, 2, 1),
            change("README.md", FileStatus::Added, 12, 0),
            change("src/lib.rs", FileStatus::Deleted, 0, 3),
            change("docs/a/b.txt", FileStatus::Renamed, 0, 0),
            change("Zed/x", FileStatus::Modified, 1, 1),
        ],
    };
    let lines = FileTreePane::build_tree_lines(&meta, 0, &theme, 30);
    let added = Some(theme.file_tree_stats_added);
    let deleted = Some(theme.file_tree_stats_deleted);
    let name = Some(theme.file_tree_default);
    let dir = Some(theme.file_tree_directory);
    let bg = Some(theme.file_tree_current_file_bg);
    assert_eq!(
        lines,
        vec![
            vec![
                span("", None, None, false),
                span("+ ", Some(theme.file_tree_added), None, true),
                span("README.md", name, None, false),
                span(" +12", added, None, false),
                span(" -0", deleted, None, false),
            ],
            vec![span("Zed/", dir, None, true)],
            vec![
                span("  ", None, None, false),
                span("~ ", Some(theme.file_tree_modified), None, true),
                span("x", name, None, false),
                span(" +1", added, None, false),
                span(" -1", deleted, None, false),
            ],
            vec![span("docs/a/", dir, None, true)],
            vec![
                span("  ", None, None, false),
                span("> ", Some(theme.file_tree_renamed), None, true),
                span("b.txt", name, None, false),
                span(" +0", added, None, false),
                span(" -0", deleted, None, false),
            ],
            vec![span("src/", dir, None, true)],
            vec![
                span("  ", None, bg, false),
                span("~ ", Some(theme.file_tree_modified), bg, true),
                span("main.rs", Some(theme.file_tree_current_file_fg), bg, true),
                span(" +2", added, bg, false),
                span(" -1", deleted, bg, false),
                span("             ", None, bg, false),
            ],
            vec![
                span("  ", None, None, false),
                span("- ", Some(theme.file_tree_deleted), None, true),
                span("lib.rs", name, None, false),
                span(" +0", added, None, false),
                span(" -3", deleted, None, false),
            ],
        ]
    );
    let narrow = FileTreePane::build_tree_lines(&meta, 1, &theme, 18);
    assert_eq!(narrow[0].len(), 5);
    assert_eq!(narrow[0][0], span("", None, bg, false));
    let wide = FileTreePane::build_tree_lines(&meta, 1, &theme, 19);
    assert_eq!(wide[0][5], span(" ", None, bg, false));
}

#[test]
fn the_file_tree_pane_leaves_room_for_its_padding() {
    let theme = Theme::tokyo_night();
    let pane = FileTreePane;
    let meta = CommitMetadata {
        hash: String::new(),
        author: String::new(),
        date: String::new(),
        message: String::new(),
        changes: vec![change("/é.rs", FileStatus::Added, 1, 0)],
    };
    let lines = pane.render(Some(&meta), 0, &theme, 20);
    assert_eq!(lines.len(), 1);
    assert_eq!(lines[0][0].content, "");
    assert_eq!(lines[0][2].content, "é.rs");
    assert_eq!(lines[0][5].content, "   ");
    assert_eq!(pane.render(Some(&meta), 0, &theme, 3)[0].len(), 5);
    assert_eq!(
        pane.render(None, 0, &theme, 20),
        vec![vec![span("No commit loaded", None, None, false)]]
    );
}
