//! Colors: the palette of a theme, the color of a token kind, and the fade
//! of colors with the distance from the cursor.

use vstd::prelude::*;
use crate::syntax::TokenType;

verus! {

/// A terminal color.
#[derive(Clone, Copy, Debug, PartialEq, Eq, Structural)]
pub enum Color {
    Reset,
    Black,
    Red,
    Green,
    Yellow,
    Blue,
    Magenta,
    Cyan,
    Gray,
    DarkGray,
    LightRed,
    LightGreen,
    LightYellow,
    LightBlue,
    LightMagenta,
    LightCyan,
    White,
    /// Red, green and blue.
    Rgb(u8, u8, u8),
    /// An entry of the terminal's table of 256 colors.
    Indexed(u8),
}

/// The colors of the dashboard.
#[derive(Clone, Copy, Debug, PartialEq, Eq, Structural)]
pub struct Theme {
    // Backgrounds: the left side holds the file tree and the status bar,
    // the right side the editor and the terminal.
    pub background_left: Color,
    pub background_right: Color,
    // Editor
    pub editor_line_number: Color,
    pub editor_line_number_cursor: Color,
    pub editor_separator: Color,
    pub editor_cursor_char_bg: Color,
    pub editor_cursor_char_fg: Color,
    pub editor_cursor_line_bg: Color,
    // File tree
    pub file_tree_added: Color,
    pub file_tree_deleted: Color,
    pub file_tree_modified: Color,
    pub file_tree_renamed: Color,
    pub file_tree_directory: Color,
    pub file_tree_current_file_bg: Color,
    pub file_tree_current_file_fg: Color,
    pub file_tree_default: Color,
    pub file_tree_stats_added: Color,
    pub file_tree_stats_deleted: Color,
    // Terminal
    pub terminal_command: Color,
    pub terminal_output: Color,
    pub terminal_cursor_bg: Color,
    pub terminal_cursor_fg: Color,
    // Status bar
    pub status_hash: Color,
    pub status_author: Color,
    pub status_date: Color,
    pub status_message: Color,
    pub status_no_commit: Color,
    // Separators
    pub separator: Color,
    // Syntax highlighting
    pub syntax_keyword: Color,
    pub syntax_type: Color,
    pub syntax_function: Color,
    pub syntax_variable: Color,
    pub syntax_string: Color,
    pub syntax_number: Color,
    pub syntax_comment: Color,
    pub syntax_operator: Color,
    pub syntax_punctuation: Color,
    pub syntax_constant: Color,
    pub syntax_parameter: Color,
    pub syntax_property: Color,
    pub syntax_label: Color,
}

/// The palette of the built-in theme.
pub open spec fn tokyo_night_palette() -> Theme {
    Theme {
        background_left: Color::Rgb(30, 34, 54),
        background_right: Color::Rgb(26, 27, 38),
        editor_line_number: Color::Rgb(86, 95, 137),
        editor_line_number_cursor: Color::Rgb(125, 207, 255),
        editor_separator: Color::Rgb(86, 95, 137),
        editor_cursor_char_bg: Color::Rgb(122, 162, 247),
        editor_cursor_char_fg: Color::Rgb(26, 27, 38),
        editor_cursor_line_bg: Color::Rgb(42, 47, 68),
        file_tree_added: Color::Rgb(158, 206, 106),
        file_tree_deleted: Color::Rgb(247, 118, 142),
        file_tree_modified: Color::Rgb(255, 158, 100),
        file_tree_renamed: Color::Rgb(122, 162, 247),
        file_tree_directory: Color::Rgb(122, 162, 247),
        file_tree_current_file_bg: Color::Rgb(42, 47, 68),
        file_tree_current_file_fg: Color::Rgb(192, 202, 245),
        file_tree_default: Color::Rgb(192, 202, 245),
        file_tree_stats_added: Color::Rgb(158, 206, 106),
        file_tree_stats_deleted: Color::Rgb(247, 118, 142),
        terminal_command: Color::Rgb(192, 202, 245),
        terminal_output: Color::Rgb(86, 95, 137),
        terminal_cursor_bg: Color::Rgb(122, 162, 247),
        terminal_cursor_fg: Color::Rgb(26, 27, 38),
        status_hash: Color::Rgb(255, 213, 128),
        status_author: Color::Rgb(158, 206, 106),
        status_date: Color::Rgb(122, 162, 247),
        status_message: Color::Rgb(192, 202, 245),
        status_no_commit: Color::Rgb(86, 95, 137),
        separator: Color::Rgb(86, 95, 137),
        syntax_keyword: Color::Rgb(187, 154, 247),
        syntax_type: Color::Rgb(125, 207, 255),
        syntax_function: Color::Rgb(122, 162, 247),
        syntax_variable: Color::Rgb(192, 202, 245),
        syntax_string: Color::Rgb(158, 206, 106),
        syntax_number: Color::Rgb(255, 158, 100),
        syntax_comment: Color::Rgb(86, 95, 137),
        syntax_operator: Color::Rgb(125, 207, 255),
        syntax_punctuation: Color::Rgb(140, 148, 184),
        syntax_constant: Color::Rgb(255, 158, 100),
        syntax_parameter: Color::Rgb(255, 213, 128),
        syntax_property: Color::Rgb(158, 206, 106),
        syntax_label: Color::Rgb(187, 154, 247),
    }
}

/// The color that `theme` gives to tokens of the kind `token`.
pub open spec fn token_color(token: TokenType, theme: Theme) -> Color {
    match token {
        TokenType::Keyword => theme.syntax_keyword,
        TokenType::Type => theme.syntax_type,
        TokenType::Function => theme.syntax_function,
        TokenType::Variable => theme.syntax_variable,
        TokenType::String => theme.syntax_string,
        TokenType::Number => theme.syntax_number,
        TokenType::Comment => theme.syntax_comment,
        TokenType::Operator => theme.syntax_operator,
        TokenType::Punctuation => theme.syntax_punctuation,
        TokenType::Constant => theme.syntax_constant,
        TokenType::Parameter => theme.syntax_parameter,
        TokenType::Property => theme.syntax_property,
        TokenType::Label => theme.syntax_label,
    }
}

impl Theme {
    /// The built-in theme, after the Tokyo Night color scheme.
    pub fn tokyo_night() -> (r: Theme)
        ensures
            r == tokyo_night_palette(),
    {
        Theme {
            background_left: Color::Rgb(30, 34, 54),
            background_right: Color::Rgb(26, 27, 38),
            editor_line_number: Color::Rgb(86, 95, 137),
            editor_line_number_cursor: Color::Rgb(125, 207, 255),
            editor_separator: Color::Rgb(86, 95, 137),
            editor_cursor_char_bg: Color::Rgb(122, 162, 247),
            editor_cursor_char_fg: Color::Rgb(26, 27, 38),
            editor_cursor_line_bg: Color::Rgb(42, 47, 68),
            file_tree_added: Color::Rgb(158, 206, 106),
            file_tree_deleted: Color::Rgb(247, 118, 142),
            file_tree_modified: Color::Rgb(255, 158, 100),
            file_tree_renamed: Color::Rgb(122, 162, 247),
            file_tree_directory: Color::Rgb(122, 162, 247),
            file_tree_current_file_bg: Color::Rgb(42, 47, 68),
            file_tree_current_file_fg: Color::Rgb(192, 202, 245),
            file_tree_default: Color::Rgb(192, 202, 245),
            file_tree_stats_added: Color::Rgb(158, 206, 106),
            file_tree_stats_deleted: Color::Rgb(247, 118, 142),
            terminal_command: Color::Rgb(192, 202, 245),
            terminal_output: Color::Rgb(86, 95, 137),
            terminal_cursor_bg: Color::Rgb(122, 162, 247),
            terminal_cursor_fg: Color::Rgb(26, 27, 38),
            status_hash: Color::Rgb(255, 213, 128),
            status_author: Color::Rgb(158, 206, 106),
            status_date: Color::Rgb(122, 162, 247),
            status_message: Color::Rgb(192, 202, 245),
            status_no_commit: Color::Rgb(86, 95, 137),
            separator: Color::Rgb(86, 95, 137),
            syntax_keyword: Color::Rgb(187, 154, 247),
            syntax_type: Color::Rgb(125, 207, 255),
            syntax_function: Color::Rgb(122, 162, 247),
            syntax_variable: Color::Rgb(192, 202, 245),
            syntax_string: Color::Rgb(158, 206, 106),
            syntax_number: Color::Rgb(255, 158, 100),
            syntax_comment: Color::Rgb(86, 95, 137),
            syntax_operator: Color::Rgb(125, 207, 255),
            syntax_punctuation: Color::Rgb(140, 148, 184),
            syntax_constant: Color::Rgb(255, 158, 100),
            syntax_parameter: Color::Rgb(255, 213, 128),
            syntax_property: Color::Rgb(158, 206, 106),
            syntax_label: Color::Rgb(187, 154, 247),
        }
    }
}

impl Default for Theme {
    fn default() -> (r: Theme)
        ensures
            r == tokyo_night_palette(),
    {
        Theme::tokyo_night()
    }
}

impl TokenType {
    /// The color that `theme` gives to tokens of this kind.
    pub fn color(&self, theme: &Theme) -> (r: Color)
        ensures
            r == token_color(*self, *theme),
    {
        match self {
            TokenType::Keyword => theme.syntax_keyword,
            TokenType::Type => theme.syntax_type,
            TokenType::Function => theme.syntax_function,
            TokenType::Variable => theme.syntax_variable,
            TokenType::String => theme.syntax_string,
            TokenType::Number => theme.syntax_number,
            TokenType::Comment => theme.syntax_comment,
            TokenType::Operator => theme.syntax_operator,
            TokenType::Punctuation => theme.syntax_punctuation,
            TokenType::Constant => theme.syntax_constant,
            TokenType::Parameter => theme.syntax_parameter,
            TokenType::Property => theme.syntax_property,
            TokenType::Label => theme.syntax_label,
        }
    }
}

/// The number of parts that an opacity is measured in. The fade over twenty
/// lines down to one half takes one part per line.
pub const OPACITY_PARTS: u8 = 40;

/// The distance from the cursor, in lines, at which the fade ends.
pub const FADE_DISTANCE: usize = 20;

/// How much of the foreground shows against the background: `parts` out of
/// `OPACITY_PARTS`.
#[derive(Clone, Copy, Debug, PartialEq, Eq, Structural)]
pub struct Opacity {
    parts: u8,
}

/// The distance between two lines.
pub open spec fn line_distance(line_num: int, cursor_line: int) -> int {
    if line_num >= cursor_line {
        line_num - cursor_line
    } else {
        cursor_line - line_num
    }
}

/// The parts of the opacity of a line at `distance` lines from the cursor:
/// all of them on the cursor line, one less per line of distance, and half of
/// them from `FADE_DISTANCE` lines on.
pub open spec fn faded_parts(distance: int) -> int {
    if distance >= FADE_DISTANCE {
        OPACITY_PARTS - FADE_DISTANCE
    } else {
        OPACITY_PARTS - distance
    }
}

/// One channel of the blend: `fg * opacity + bg * (1 - opacity)`, cut down
/// to a whole number.
pub open spec fn blend_channel(fg: u8, bg: u8, parts: int) -> int {
    (fg * parts + bg * (OPACITY_PARTS - parts)) / (OPACITY_PARTS as int)
}

/// The foreground `fg` shown with `parts` of its opacity against `bg`. Only
/// colors given by red, green and blue are blended; any other foreground is
/// left as it is.
pub open spec fn blended(fg: Color, parts: int, bg: Color) -> Color {
    match (fg, bg) {
        (Color::Rgb(fr, fg_, fb), Color::Rgb(br, bg_, bb)) => Color::Rgb(
            blend_channel(fr, br, parts) as u8,
            blend_channel(fg_, bg_, parts) as u8,
            blend_channel(fb, bb, parts) as u8,
        ),
        _ => fg,
    }
}

impl Opacity {
    /// The parts of the foreground that show, out of `OPACITY_PARTS`.
    pub closed spec fn parts(self) -> int {
        self.parts as int
    }

    /// No opacity holds more parts than there are.
    #[verifier::type_invariant]
    pub closed spec fn wf(self) -> bool {
        self.parts <= OPACITY_PARTS
    }

    /// Full opacity: the foreground alone shows.
    pub fn full() -> (r: Opacity)
        ensures
            r.parts() == OPACITY_PARTS,
    {
        Opacity { parts: OPACITY_PARTS }
    }

    /// The opacity of line `line_num` while the cursor is on `cursor_line`.
    pub fn at_distance(line_num: usize, cursor_line: usize) -> (r: Opacity)
        ensures
            r.parts() == faded_parts(line_distance(line_num as int, cursor_line as int)),
    {
        let distance = if line_num >= cursor_line {
            line_num - cursor_line
        } else {
            cursor_line - line_num
        };
        if distance >= FADE_DISTANCE {
            Opacity { parts: OPACITY_PARTS - 20 }
        } else {
            Opacity { parts: OPACITY_PARTS - (distance as u8) }
        }
    }

    /// The parts of the foreground that show.
    pub fn get_parts(&self) -> (r: u8)
        ensures
            r == self.parts(),
            r <= OPACITY_PARTS,
    {
        proof {
            use_type_invariant(self);
        }
        self.parts
    }
}

/// One channel of a blend.
fn blend(fg: u8, bg: u8, parts: u8) -> (r: u8)
    requires
        parts <= OPACITY_PARTS,
    ensures
        r == blend_channel(fg, bg, parts as int),
{
    let rest: u8 = OPACITY_PARTS - parts;
    assert(fg * parts + bg * rest <= 255 * 40) by (nonlinear_arith)
        requires
            parts + rest == 40,
            fg <= 255,
            bg <= 255,
    ;
    assert(0 <= fg * parts && 0 <= bg * rest) by (nonlinear_arith);
    let total: u32 = (fg as u32) * (parts as u32) + (bg as u32) * (rest as u32);
    (total / 40) as u8
}

/// Shows `foreground` with the given opacity against `background`.
pub fn apply_opacity(foreground: Color, opacity: Opacity, background: Color) -> (r: Color)
    ensures
        r == blended(foreground, opacity.parts(), background),
{
    let parts = opacity.get_parts();
    match (foreground, background) {
        (Color::Rgb(fr, fg, fb), Color::Rgb(br, bg, bb)) => Color::Rgb(
            blend(fr, br, parts),
            blend(fg, bg, parts),
            blend(fb, bb, parts),
        ),
        _ => foreground,
    }
}

/// **The boundaries of the fade.** On the cursor line the blend is the
/// foreground itself. From `FADE_DISTANCE` lines on, each channel is the
/// mean of foreground and background, cut down to a whole number. The
/// opacity depends on the distance alone, whichever side of the cursor the
/// line lies on.
pub proof fn law_fade_boundaries(fg: Color, bg: Color, line_num: int, cursor_line: int)
    ensures
        blended(fg, faded_parts(line_distance(cursor_line, cursor_line)), bg) == fg,
        line_distance(line_num, cursor_line) >= FADE_DISTANCE ==> blended(
            fg,
            faded_parts(line_distance(line_num, cursor_line)),
            bg,
        ) == match (fg, bg) {
            (Color::Rgb(fr, fg_, fb), Color::Rgb(br, bg_, bb)) => Color::Rgb(
                ((fr + br) / 2) as u8,
                ((fg_ + bg_) / 2) as u8,
                ((fb + bb) / 2) as u8,
            ),
            _ => fg,
        },
        faded_parts(line_distance(line_num, cursor_line)) == faded_parts(
            line_distance(cursor_line, line_num),
        ),
        faded_parts(line_distance(cursor_line + (line_num - cursor_line), cursor_line))
            == faded_parts(line_distance(cursor_line - (line_num - cursor_line), cursor_line)),
{
    assert forall|f: u8, b: u8| #[trigger] blend_channel(f, b, 40) == f by {
        assert((f * 40 + b * 0) / 40 == f);
    }
    assert forall|f: u8, b: u8| #[trigger] blend_channel(f, b, 20) == (f + b) / 2 by {
        assert((f * 20 + b * 20) / 40 == (f + b) / 2);
    }
}

} // verus!
