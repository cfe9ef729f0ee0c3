use gitlogue::config::{
    default_background, default_loop, default_order, default_speed, default_theme, Config,
    ConfigError,
};
use gitlogue::order::PlaybackOrder;

fn config(theme: &str, speed: u64, background: bool, order: &str, loop_playback: bool) -> Config {
    Config {
        theme: theme.to_string(),
        speed,
        background,
        order: order.to_string(),
        loop_playback,
    }
}

fn parsed(text: &str) -> toml::Table {
    text.parse::<toml::Table>().unwrap()
}

#[test]
fn the_defaults_are_those_of_the_keys() {
    assert_eq!(default_theme(), "tokyo-night");
    assert_eq!(default_speed(), 30);
    assert!(default_background());
    assert_eq!(default_order(), "random");
    assert!(!default_loop());
    let c = Config::default();
    assert_eq!(c.theme, "tokyo-night");
    assert_eq!(c.speed, 30);
    assert!(c.background);
    assert_eq!(c.order, "random");
    assert!(!c.loop_playback);
}

#[test]
fn a_fresh_file_explains_every_key() {
    let text = Config::default().fresh_text().unwrap();
    assert_eq!(
        text,
        "# gitlogue configuration file\n\
         # All settings are optional and will use defaults if not specified\n\
         \n\
         # Theme to use for syntax highlighting\n\
         theme = \"tokyo-night\"\n\
         \n\
         # Typing speed in milliseconds per character\n\
         speed = 30\n\
         \n\
         # Show background colors (set to false for transparent background)\n\
         background = true\n\
         \n\
         # Commit playback order: random, asc, or desc\n\
         order = \"random\"\n\
         \n\
         # Loop the animation continuously\n\
         loop = false\n"
    );
}

#[test]
fn the_default_settings_survive_writing_and_reading() {
    let table = parsed(&Config::default().fresh_text().unwrap());
    assert_eq!(table.len(), 5);
    assert_eq!(table["theme"].as_str(), Some("tokyo-night"));
    assert_eq!(table["speed"].as_integer(), Some(30));
    assert_eq!(table["background"].as_bool(), Some(true));
    assert_eq!(table["order"].as_str(), Some("random"));
    assert_eq!(table["loop"].as_bool(), Some(false));
}

#[test]
fn other_settings_survive_writing_and_reading() {
    let table = parsed(&config("dracula", 1234567, false, "desc", true).fresh_text().unwrap());
    assert_eq!(table["theme"].as_str(), Some("dracula"));
    assert_eq!(table["speed"].as_integer(), Some(1234567));
    assert_eq!(table["background"].as_bool(), Some(false));
    assert_eq!(table["order"].as_str(), Some("desc"));
    assert_eq!(table["loop"].as_bool(), Some(true));
    let zero = parsed(&config("", 0, true, "", false).fresh_text().unwrap());
    assert_eq!(zero["speed"].as_integer(), Some(0));
    assert_eq!(zero["theme"].as_str(), Some(""));
}

#[test]
fn an_update_keeps_the_comments_and_the_other_keys() {
    let existing = "# my settings\n\
                    theme = \"old\"  \n\
                    \n\
                    # how fast\n\
                    speed = 5\n\
                    custom = [1, 2]\n\
                    # the end\n";
    let updated = config("new", 77, false, "asc", true).updated_text(existing).unwrap();
    assert_ne!(updated, existing);
    for line in ["# my settings", "# how fast", "custom = [1, 2]", "# the end"] {
        assert!(updated.lines().any(|l| l == line));
    }
    let table = parsed(&updated);
    assert_eq!(table.len(), 6);
    assert_eq!(table["theme"].as_str(), Some("new"));
    assert_eq!(table["speed"].as_integer(), Some(77));
    assert_eq!(table["background"].as_bool(), Some(false));
    assert_eq!(table["order"].as_str(), Some("asc"));
    assert_eq!(table["loop"].as_bool(), Some(true));
    assert_eq!(table["custom"].as_array().map(|a| a.len()), Some(2));
    let first = updated.lines().position(|l| l == "# my settings").unwrap();
    let theme = updated.lines().position(|l| l.starts_with("theme")).unwrap();
    let fast = updated.lines().position(|l| l == "# how fast").unwrap();
    let speed = updated.lines().position(|l| l.starts_with("speed")).unwrap();
    assert!(first < theme && theme < fast && fast < speed);
}

#[test]
fn an_update_of_a_fresh_file_keeps_its_explanations() {
    let fresh = Config::default().fresh_text().unwrap();
    let updated = config("night", 10, true, "asc", false).updated_text(&fresh).unwrap();
    let comments = |text: &str| -> Vec<String> {
        text.lines().filter(|l| l.starts_with('#')).map(|l| l.to_string()).collect()
    };
    assert_eq!(comments(&updated), comments(&fresh));
    assert_eq!(comments(&updated).len(), 7);
    assert_eq!(updated, config("night", 10, true, "asc", false).fresh_text().unwrap());
    let same = Config::default().updated_text(&fresh).unwrap();
    assert_eq!(same, fresh);
}

#[test]
fn an_update_of_an_empty_file_holds_the_settings() {
    let updated = Config::default().updated_text("").unwrap();
    let table = parsed(&updated);
    assert_eq!(table.len(), 5);
    assert_eq!(table["theme"].as_str(), Some("tokyo-night"));
    assert_eq!(table["loop"].as_bool(), Some(false));
}

#[test]
fn a_value_of_another_type_is_replaced() {
    let updated = Config::default().updated_text("theme = 3\nspeed = \"fast\"\n[loop]\nx = 1\n");
    let table = parsed(&updated.unwrap());
    assert_eq!(table["theme"].as_str(), Some("tokyo-night"));
    assert_eq!(table["speed"].as_integer(), Some(30));
    assert_eq!(table["loop"].as_bool(), Some(false));
}

#[test]
fn a_speed_that_no_file_can_hold_is_refused() {
    for speed in [u64::MAX, 1 << 63] {
        let c = config("t", speed, true, "asc", false);
        assert!(matches!(c.updated_text(""), Err(ConfigError::SpeedOutOfRange)));
        assert!(matches!(c.updated_text("theme = "), Err(ConfigError::SpeedOutOfRange)));
        assert!(matches!(c.fresh_text(), Err(ConfigError::SpeedOutOfRange)));
        let mut doc = "speed = 5\n".parse::<toml_edit::DocumentMut>().unwrap();
        assert!(matches!(c.write_into(&mut doc), Err(ConfigError::SpeedOutOfRange)));
        assert_eq!(doc.to_string(), "speed = 5\n");
    }
    assert_eq!(
        ConfigError::SpeedOutOfRange.message(),
        "speed is too large for a configuration file"
    );
    let largest = config("t", i64::MAX as u64, true, "asc", false);
    let table = parsed(&largest.updated_text("").unwrap());
    assert_eq!(table["speed"].as_integer(), Some(i64::MAX));
    let table = parsed(&largest.fresh_text().unwrap());
    assert_eq!(table["speed"].as_integer(), Some(i64::MAX));
}

#[test]
fn settings_are_written_into_a_document() {
    let mut doc = "# first\ntheme = \"x\"\nother = 1\n# last\n".parse::<toml_edit::DocumentMut>().unwrap();
    assert!(config("y", 9, false, "desc", true).write_into(&mut doc).is_ok());
    assert_eq!(doc["theme"].as_str(), Some("y"));
    assert_eq!(doc["speed"].as_integer(), Some(9));
    assert_eq!(doc["background"].as_bool(), Some(false));
    assert_eq!(doc["order"].as_str(), Some("desc"));
    assert_eq!(doc["loop"].as_bool(), Some(true));
    assert_eq!(doc["other"].as_integer(), Some(1));
    let text = doc.to_string();
    let first = text.lines().position(|l| l == "# first").unwrap();
    let last = text.lines().position(|l| l == "# last").unwrap();
    assert!(first < last);
}

#[test]
fn a_text_that_is_no_document_is_refused() {
    let result = Config::default().updated_text("theme = \nspeed");
    match result {
        Err(ConfigError::Parse(message)) => assert!(!message.is_empty()),
        Ok(text) => panic!("accepted: {}", text),
        Err(other) => panic!("another error: {}", other.message()),
    }
    let error = Config::default().updated_text("= 1").unwrap_err();
    assert!(!error.message().is_empty());
}

#[test]
fn the_order_is_read_from_its_name() {
    let order = |name: &str| config("t", 1, true, name, false).playback_order();
    assert_eq!(order("random"), Some(PlaybackOrder::Random));
    assert_eq!(order("asc"), Some(PlaybackOrder::Asc));
    assert_eq!(order("desc"), Some(PlaybackOrder::Desc));
    assert_eq!(order("ASC"), None);
    assert_eq!(order(""), None);
    assert_eq!(order("ascending"), None);
    assert_eq!(Config::default().playback_order(), Some(PlaybackOrder::Random));
}

#[test]
fn the_configuration_lives_under_the_home_directory() {
    assert_eq!(gitlogue::config::config_dir_components(), vec![".config", "gitlogue"]);
    assert_eq!(gitlogue::config::config_file_name(), "config.toml");
    assert_eq!(gitlogue::config::themes_dir_name(), "themes");
}
