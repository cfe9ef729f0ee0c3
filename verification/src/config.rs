//! The configuration: its keys and defaults, the text of a fresh
//! configuration file, and the update of an existing one.

use vstd::prelude::*;
use vstd::string::StringExecFns;
use crate::order::PlaybackOrder;
use crate::text::{decimal, decimal_of, str_is, string_of};

verus! {

/// The settings of the program.
#[derive(Debug, Clone)]
pub struct Config {
    /// The name of the color palette.
    pub theme: String,
    /// The delay per typed character, in milliseconds.
    pub speed: u64,
    /// Whether the panes have opaque backgrounds.
    pub background: bool,
    /// The order in which commits are played: `random`, `asc` or `desc`.
    pub order: String,
    /// Whether playback starts over after the last commit.
    pub loop_playback: bool,
}

/// A configuration as contracts see it.
pub struct ConfigView {
    pub theme: Seq<char>,
    pub speed: u64,
    pub background: bool,
    pub order: Seq<char>,
    pub loop_playback: bool,
}

impl View for Config {
    type V = ConfigView;

    open spec fn view(&self) -> ConfigView {
        ConfigView {
            theme: self.theme@,
            speed: self.speed,
            background: self.background,
            order: self.order@,
            loop_playback: self.loop_playback,
        }
    }
}

/// The default settings.
pub open spec fn default_settings() -> ConfigView {
    ConfigView {
        theme: "tokyo-night"@,
        speed: 30,
        background: true,
        order: "random"@,
        loop_playback: false,
    }
}

/// The theme of a configuration that names none.
pub fn default_theme() -> (r: String)
    ensures
        r@ == "tokyo-night"@,
{
    String::from_str("tokyo-night")
}

/// The speed of a configuration that names none.
pub fn default_speed() -> (r: u64)
    ensures
        r == 30,
{
    30
}

/// Whether backgrounds are opaque where a configuration does not say.
pub fn default_background() -> (r: bool)
    ensures
        r,
{
    true
}

/// The order of a configuration that names none.
pub fn default_order() -> (r: String)
    ensures
        r@ == "random"@,
{
    String::from_str("random")
}

/// Whether playback loops where a configuration does not say.
pub fn default_loop() -> (r: bool)
    ensures
        !r,
{
    false
}

impl Default for Config {
    fn default() -> (r: Config)
        ensures
            r@ == default_settings(),
    {
        Config {
            theme: default_theme(),
            speed: default_speed(),
            background: default_background(),
            order: default_order(),
            loop_playback: default_loop(),
        }
    }
}

/// The directories from the home directory down to the configuration
/// directory.
pub open spec fn config_directory() -> Seq<Seq<char>> {
    seq![".config"@, "gitlogue"@]
}

/// The directories from the home directory down to the configuration
/// directory.
pub fn config_dir_components() -> (r: Vec<&'static str>)
    ensures
        r@.len() == 2,
        r@[0]@ == config_directory()[0],
        r@[1]@ == config_directory()[1],
{
    let mut r: Vec<&'static str> = Vec::new();
    r.push(".config");
    r.push("gitlogue");
    r
}

/// The name of the configuration file in the configuration directory.
pub fn config_file_name() -> (r: &'static str)
    ensures
        r@ == "config.toml"@,
{
    "config.toml"
}

/// The name of the directory of themes in the configuration directory.
pub fn themes_dir_name() -> (r: &'static str)
    ensures
        r@ == "themes"@,
{
    "themes"
}

/// How a boolean is written in a configuration file.
pub open spec fn bool_text(b: bool) -> Seq<char> {
    if b {
        "true"@
    } else {
        "false"@
    }
}

/// The text of a fresh configuration file that holds the settings `c`: each
/// key with a comment that explains it.
pub open spec fn fresh_document(c: ConfigView) -> Seq<char> {
    "# gitlogue configuration file\n# All settings are optional and will use defaults if not specified\n\n# Theme to use for syntax highlighting\ntheme = \""@
        + c.theme
        + "\"\n\n# Typing speed in milliseconds per character\nspeed = "@
        + decimal(c.speed as nat)
        + "\n\n# Show background colors (set to false for transparent background)\nbackground = "@
        + bool_text(c.background)
        + "\n\n# Commit playback order: random, asc, or desc\norder = \""@
        + c.order
        + "\"\n\n# Loop the animation continuously\nloop = "@
        + bool_text(c.loop_playback) + "\n"@
}

/// The playback order that the word `word` names.
pub open spec fn order_named(word: Seq<char>) -> Option<PlaybackOrder> {
    if word == "random"@ {
        Some(PlaybackOrder::Random)
    } else if word == "asc"@ {
        Some(PlaybackOrder::Asc)
    } else if word == "desc"@ {
        Some(PlaybackOrder::Desc)
    } else {
        None
    }
}

/// How a boolean is written in a configuration file.
fn bool_word(b: bool) -> (r: &'static str)
    ensures
        r@ == bool_text(b),
{
    if b {
        "true"
    } else {
        "false"
    }
}

impl Config {
    /// The text of a fresh configuration file that holds these settings.
    /// Settings whose speed cannot be written are refused.
    pub fn fresh_text(&self) -> (r: Result<String, ConfigError>)
        ensures
            r is Ok <==> writable(self@),
            r matches Ok(text) ==> text@ == fresh_document(self@),
            r is Err ==> r == Err::<String, ConfigError>(ConfigError::SpeedOutOfRange),
    {
        if self.speed > 0x7fff_ffff_ffff_ffff {
            return Err(ConfigError::SpeedOutOfRange);
        }
        let mut text = String::from_str(
            "# gitlogue configuration file\n# All settings are optional and will use defaults if not specified\n\n# Theme to use for syntax highlighting\ntheme = \"",
        );
        text.append(self.theme.as_str());
        text.append("\"\n\n# Typing speed in milliseconds per character\nspeed = ");
        let speed = string_of(&decimal_of(self.speed as u128));
        text.append(speed.as_str());
        text.append(
            "\n\n# Show background colors (set to false for transparent background)\nbackground = ",
        );
        text.append(bool_word(self.background));
        text.append("\n\n# Commit playback order: random, asc, or desc\norder = \"");
        text.append(self.order.as_str());
        text.append("\"\n\n# Loop the animation continuously\nloop = ");
        text.append(bool_word(self.loop_playback));
        text.append("\n");
        Ok(text)
    }

    /// The playback order that the settings name, if they name one.
    pub fn playback_order(&self) -> (r: Option<PlaybackOrder>)
        ensures
            r == order_named(self@.order),
    {
        let word = self.order.as_str();
        if str_is(word, "random") {
            Some(PlaybackOrder::Random)
        } else if str_is(word, "asc") {
            Some(PlaybackOrder::Asc)
        } else if str_is(word, "desc") {
            Some(PlaybackOrder::Desc)
        } else {
            None
        }
    }
}

/// An editable TOML document of the `toml_edit` crate. It keeps the comments
/// and the layout of the text that it was parsed from.
#[verifier::external_type_specification]
#[verifier::external_body]
pub struct ExDocumentMut(toml_edit::DocumentMut);

/// The error with which the `toml_edit` crate refuses a text.
#[verifier::external_type_specification]
#[verifier::external_body]
pub struct ExTomlError(toml_edit::TomlError);

/// What a key of a document holds, as far as the configuration reads it.
pub enum TomlValue {
    /// A string.
    Str(Seq<char>),
    /// An integer.
    Int(int),
    /// A boolean.
    Bool(bool),
    /// Anything else: a float, a date, an array, a table. Holds the item as
    /// it is written, so that two such items are told apart.
    Other(Seq<char>),
}

/// The entries of the root table of a document: what each of its keys holds.
pub uninterp spec fn toml_entries(doc: toml_edit::DocumentMut) -> Map<Seq<char>, TomlValue>;

/// The text that a document is written as.
pub uninterp spec fn toml_text(doc: toml_edit::DocumentMut) -> Seq<char>;

/// Whether the root of a document is a table. It is in every document that
/// comes from a text; a caller can put another item in its place.
pub uninterp spec fn toml_root_is_table(doc: toml_edit::DocumentMut) -> bool;

/// The comment lines of a document that belong to no value: those that
/// stand before a key of its root table that is written as `key = value`,
/// and those behind its last entry, in the order in which the document is
/// written. The comment lines before the header of a table or before a
/// dotted key are not among them: they belong to what the key holds, and go
/// with it when the key is given another value.
pub uninterp spec fn toml_comments(doc: toml_edit::DocumentMut) -> Seq<Seq<char>>;

/// What a text parses to.
pub struct ParsedToml {
    /// The entries of the root table.
    pub entries: Map<Seq<char>, TomlValue>,
    /// The comment lines that belong to no value.
    pub comments: Seq<Seq<char>>,
}

/// What the document holds that a text parses to, or `None` for a text that
/// is no TOML document.
pub uninterp spec fn toml_parse(text: Seq<char>) -> Option<ParsedToml>;

/// Parses a text with `str::parse::<toml_edit::DocumentMut>`. The contract
/// names what the parser gives: the entries and the comment lines of the
/// document, or nothing for a text that it refuses. The root of a parsed
/// document is a table.
#[verifier::external_body]
fn parse_document(text: &str) -> (r: Result<toml_edit::DocumentMut, toml_edit::TomlError>)
    ensures
        match r {
            Ok(doc) => toml_root_is_table(doc) && toml_parse(text@) == Some(
                ParsedToml { entries: toml_entries(doc), comments: toml_comments(doc) },
            ),
            Err(_) => toml_parse(text@) is None,
        },
{
    text.parse::<toml_edit::DocumentMut>()
}

/// Assigns `toml_edit::value(value)` to the key `key` of the root table of a
/// document. The key then holds the string, whether or not the table had
/// the key before, and every other key holds what it held. The key itself
/// stays with the comment lines before it: only what it holds is replaced.
#[verifier::external_body]
fn set_string(doc: &mut toml_edit::DocumentMut, key: &str, value: &str)
    requires
        toml_root_is_table(*old(doc)),
    ensures
        toml_root_is_table(*final(doc)),
        toml_entries(*final(doc)) == toml_entries(*old(doc)).insert(key@, TomlValue::Str(value@)),
        toml_comments(*final(doc)) == toml_comments(*old(doc)),
{
    doc[key] = toml_edit::value(value);
}

/// Assigns `toml_edit::value(value)` to the key `key` of the root table of a
/// document. The key then holds the integer, and every other key holds what
/// it held. The key itself stays with the comment lines before it.
#[verifier::external_body]
fn set_integer(doc: &mut toml_edit::DocumentMut, key: &str, value: i64)
    requires
        toml_root_is_table(*old(doc)),
    ensures
        toml_root_is_table(*final(doc)),
        toml_entries(*final(doc)) == toml_entries(*old(doc)).insert(
            key@,
            TomlValue::Int(value as int),
        ),
        toml_comments(*final(doc)) == toml_comments(*old(doc)),
{
    doc[key] = toml_edit::value(value);
}

/// Assigns `toml_edit::value(value)` to the key `key` of the root table of a
/// document. The key then holds the boolean, and every other key holds what
/// it held. The key itself stays with the comment lines before it.
#[verifier::external_body]
fn set_boolean(doc: &mut toml_edit::DocumentMut, key: &str, value: bool)
    requires
        toml_root_is_table(*old(doc)),
    ensures
        toml_root_is_table(*final(doc)),
        toml_entries(*final(doc)) == toml_entries(*old(doc)).insert(key@, TomlValue::Bool(value)),
        toml_comments(*final(doc)) == toml_comments(*old(doc)),
{
    doc[key] = toml_edit::value(value);
}

/// Writes a document out with `to_string`. The contract names the text.
#[verifier::external_body]
fn render_document(doc: &toml_edit::DocumentMut) -> (r: String)
    requires
        toml_root_is_table(*doc),
    ensures
        r@ == toml_text(*doc),
{
    doc.to_string()
}

/// The message of a parse error, from `to_string`. Nothing is claimed of it.
#[verifier::external_body]
fn error_message(error: &toml_edit::TomlError) -> (r: String) {
    error.to_string()
}

/// Why a configuration could not be written.
#[derive(Debug)]
pub enum ConfigError {
    /// The existing text is no TOML document. Holds the parser's message.
    Parse(String),
    /// The speed is beyond the largest integer that a configuration file can
    /// hold, so that the file could not be read again.
    SpeedOutOfRange,
}

/// What is said of a speed that cannot be written.
pub open spec fn speed_message() -> Seq<char> {
    "speed is too large for a configuration file"@
}

impl ConfigError {
    /// The message of the error: the parser's, or that of the speed.
    pub fn message(&self) -> (r: String)
        ensures
            r@ == match self {
                ConfigError::Parse(m) => m@,
                ConfigError::SpeedOutOfRange => speed_message(),
            },
    {
        match self {
            ConfigError::Parse(m) => m.clone(),
            ConfigError::SpeedOutOfRange => String::from_str(
                "speed is too large for a configuration file",
            ),
        }
    }
}

/// Whether the settings can be written so that they can be read again: the
/// speed is an integer that a configuration file can hold.
pub open spec fn writable(c: ConfigView) -> bool {
    c.speed <= i64::MAX
}

/// The entries of a document after the settings `c` have been written into
/// it: the five keys of the configuration hold the settings, every other key
/// holds what it held.
pub open spec fn updated_entries(entries: Map<Seq<char>, TomlValue>, c: ConfigView) -> Map<
    Seq<char>,
    TomlValue,
> {
    entries.insert("theme"@, TomlValue::Str(c.theme)).insert(
        "speed"@,
        TomlValue::Int(c.speed as int),
    ).insert("background"@, TomlValue::Bool(c.background)).insert(
        "order"@,
        TomlValue::Str(c.order),
    ).insert("loop"@, TomlValue::Bool(c.loop_playback))
}

impl Config {
    /// Writes the settings into a document whose root is a table, and
    /// leaves the rest of it as it is: the other keys and the comment lines
    /// stay. Settings whose speed cannot be written are refused, and leave
    /// the document untouched.
    pub fn write_into(&self, doc: &mut toml_edit::DocumentMut) -> (r: Result<(), ConfigError>)
        requires
            toml_root_is_table(*old(doc)),
        ensures
            r is Ok <==> writable(self@),
            r is Err ==> r == Err::<(), ConfigError>(ConfigError::SpeedOutOfRange) && *final(doc)
                == *old(doc),
            r is Ok ==> {
                &&& toml_root_is_table(*final(doc))
                &&& toml_entries(*final(doc)) == updated_entries(toml_entries(*old(doc)), self@)
                &&& toml_comments(*final(doc)) == toml_comments(*old(doc))
            },
    {
        if self.speed > 0x7fff_ffff_ffff_ffff {
            return Err(ConfigError::SpeedOutOfRange);
        }
        set_string(doc, "theme", self.theme.as_str());
        set_integer(doc, "speed", self.speed as i64);
        set_boolean(doc, "background", self.background);
        set_string(doc, "order", self.order.as_str());
        set_boolean(doc, "loop", self.loop_playback);
        Ok(())
    }

    /// The text of an existing configuration file after these settings have
    /// been written into it. The file is edited, not written afresh, so
    /// that what it holds besides the settings stays: the written document
    /// holds the other keys and the comment lines of the existing one.
    /// Settings whose speed cannot be written are refused; otherwise the
    /// call fails exactly if the existing text is no TOML document.
    pub fn updated_text(&self, existing: &str) -> (r: Result<String, ConfigError>)
        ensures
            r is Ok <==> writable(self@) && toml_parse(existing@) is Some,
            r == Err::<String, ConfigError>(ConfigError::SpeedOutOfRange) <==> !writable(self@),
            r matches Err(ConfigError::Parse(_)) <==> writable(self@) && toml_parse(existing@)
                is None,
            r matches Ok(text) ==> exists|doc: toml_edit::DocumentMut|
                {
                    &&& #[trigger] toml_text(doc) == text@
                    &&& toml_entries(doc) == updated_entries(
                        toml_parse(existing@)->0.entries,
                        self@,
                    )
                    &&& toml_comments(doc) == toml_parse(existing@)->0.comments
                },
    {
        if self.speed > 0x7fff_ffff_ffff_ffff {
            return Err(ConfigError::SpeedOutOfRange);
        }
        match parse_document(existing) {
            Ok(doc) => {
                let mut doc = doc;
                match self.write_into(&mut doc) {
                    Ok(()) => {},
                    Err(error) => {
                        return Err(error);
                    },
                }
                let text = render_document(&doc);
                assert(toml_text(doc) == text@);
                Ok(text)
            },
            Err(error) => Err(ConfigError::Parse(error_message(&error))),
        }
    }
}

} // verus!
