use mdbook_rolltables::config::{find, recognizes, ConfigEntry, ConfigValue};
use mdbook_rolltables::dice::DieConfig;
use mdbook_rolltables::error::{ConfigKey, RunError};
use mdbook_rolltables::RollTables;

fn entry(key: &str, value: ConfigValue) -> ConfigEntry {
    ConfigEntry { key: key.to_string(), value }
}

fn string(value: &str) -> ConfigValue {
    ConfigValue::String(value.to_string())
}

#[test]
fn no_options_are_the_defaults() {
    let cfg = DieConfig::from_entries(&vec![]).unwrap();
    assert_eq!(cfg.separator, ".");
    assert_eq!(cfg.head_separator, "");
    assert!(!cfg.warn_unusual_dice);
}

#[test]
fn options_are_read_by_their_keys() {
    let entries = vec![
        entry("warn-unusual-dice", ConfigValue::Boolean(true)),
        entry("separator", string("-")),
        entry("head-separator", string(" d")),
    ];
    let cfg = DieConfig::from_entries(&entries).unwrap();
    assert_eq!(cfg.separator, "-");
    assert_eq!(cfg.head_separator, " d");
    assert!(cfg.warn_unusual_dice);
}

#[test]
fn one_option_leaves_the_others_at_their_defaults() {
    let cfg = DieConfig::from_entries(&vec![entry("separator", string(""))]).unwrap();
    assert_eq!(cfg.separator, "");
    assert_eq!(cfg.head_separator, "");
    assert!(!cfg.warn_unusual_dice);
    let cfg = DieConfig::from_entries(&vec![entry("head-separator", string("/"))]).unwrap();
    assert_eq!(cfg.separator, ".");
    assert_eq!(cfg.head_separator, "/");
    let cfg =
        DieConfig::from_entries(&vec![entry("warn-unusual-dice", ConfigValue::Boolean(false))])
            .unwrap();
    assert!(!cfg.warn_unusual_dice);
}

#[test]
fn a_head_separator_of_the_wrong_type() {
    for value in [ConfigValue::Boolean(true), ConfigValue::Other] {
        let error = DieConfig::from_entries(&vec![entry("head-separator", value)]).unwrap_err();
        assert_eq!(error, RunError::ConfigValidation(ConfigKey::HeadSeparator));
    }
}

#[test]
fn a_separator_of_the_wrong_type() {
    for value in [ConfigValue::Boolean(false), ConfigValue::Other] {
        let error = DieConfig::from_entries(&vec![entry("separator", value)]).unwrap_err();
        assert_eq!(error, RunError::ConfigValidation(ConfigKey::Separator));
    }
}

#[test]
fn a_warning_flag_of_the_wrong_type() {
    for value in [string("true"), ConfigValue::Other] {
        let error = DieConfig::from_entries(&vec![entry("warn-unusual-dice", value)]).unwrap_err();
        assert_eq!(error, RunError::ConfigValidation(ConfigKey::WarnUnusualDice));
    }
}

#[test]
fn the_first_wrong_option_is_reported() {
    let entries = vec![
        entry("warn-unusual-dice", ConfigValue::Other),
        entry("separator", ConfigValue::Other),
        entry("head-separator", ConfigValue::Other),
    ];
    assert_eq!(DieConfig::from_entries(&entries).unwrap_err(), RunError::ConfigValidation(ConfigKey::HeadSeparator));
    let entries =
        vec![entry("warn-unusual-dice", ConfigValue::Other), entry("separator", ConfigValue::Other)];
    assert_eq!(DieConfig::from_entries(&entries).unwrap_err(), RunError::ConfigValidation(ConfigKey::Separator));
}

#[test]
fn the_first_entry_under_a_key_counts() {
    let entries = vec![entry("separator", string("a")), entry("separator", string("b"))];
    assert_eq!(find(&entries, "separator"), Some(&string("a")));
    assert_eq!(find(&entries, "head-separator"), None);
    assert_eq!(find(&entries, "Separator"), None);
    assert_eq!(DieConfig::from_entries(&entries).unwrap().separator, "a");
}

#[test]
fn errors_have_their_sentences() {
    assert_eq!(
        RunError::ConfigValidation(ConfigKey::Unrecognized).message(),
        "an option is not recognized"
    );
    assert_eq!(RunError::ConfigValidation(ConfigKey::HeadSeparator).message(), "head-separator must be a string");
    assert_eq!(RunError::ConfigValidation(ConfigKey::Separator).message(), "separator must be a string");
    assert_eq!(RunError::ConfigValidation(ConfigKey::WarnUnusualDice).message(), "warn-unusual-dice must be a bool");
    assert_eq!(RunError::MalformedTableStream.message(), "the tokens of a table are out of order");
    assert_eq!(
        RunError::GeneratorLengthMismatch.message(),
        "a table needs one label for each of its rows"
    );
    assert_eq!(RunError::Unrenderable.message(), "the tokens cannot be written as markdown");
}

#[test]
fn name_is_rolltables() {
    assert_eq!(RollTables.name(), "rolltables");
}

#[test]
fn a_book_is_rewritten_chapter_by_chapter() {
    let chapters = vec![
        "|d|Class|\n|:-:|:--|\n||Warrior|\n||Thief|\n||Wizard|".to_string(),
        "No table here.".to_string(),
        "|d|A|\n|-|-|\n||a|\n||b|\n||c|\n||d|".to_string(),
    ];
    let entries = vec![entry("warn-unusual-dice", ConfigValue::Boolean(true))];
    let book = RollTables.run(&entries, &chapters).unwrap();
    assert_eq!(book.len(), 3);
    assert_eq!(book[0].content, "|d3|Class|\n|:-:|:----|\n|1|Warrior|\n|2|Thief|\n|3|Wizard|");
    assert_eq!(book[0].unusual_dice, vec![3]);
    assert_eq!(book[1].content, "No table here.");
    assert!(book[1].unusual_dice.is_empty());
    assert_eq!(book[2].content, "|d4|A|\n|--|-|\n|1|a|\n|2|b|\n|3|c|\n|4|d|");
    assert!(book[2].unusual_dice.is_empty());
}

#[test]
fn a_book_uses_its_separators() {
    let rows: String = (0..16).map(|_| "||x|\n").collect();
    let chapters = vec![format!("|d|A|\n|-|-|\n{}", rows)];
    let entries = vec![entry("separator", string("-")), entry("head-separator", string(" d"))];
    let book = RollTables.run(&entries, &chapters).unwrap();
    assert!(book[0].content.starts_with("|d4 d4|A|\n|-----|-|\n|1-1|x|\n|1-2|x|\n"), "{}", book[0].content);
    assert!(book[0].content.contains("|2-1|x|\n"));
    assert!(book[0].content.ends_with("|4-4|x|"));
}

#[test]
fn a_wrong_option_ends_the_run_before_any_chapter() {
    let chapters = vec!["|d|A|\n|-|-|\n||a|".to_string()];
    let entries = vec![entry("separator", ConfigValue::Boolean(true))];
    assert_eq!(RollTables.run(&entries, &chapters).unwrap_err(), RunError::ConfigValidation(ConfigKey::Separator));
    assert_eq!(RollTables.run(&entries, &vec![]).unwrap_err(), RunError::ConfigValidation(ConfigKey::Separator));
}

#[test]
fn a_book_without_chapters() {
    assert!(RollTables.run(&vec![], &vec![]).unwrap().is_empty());
}

#[test]
fn an_unrecognized_option_is_refused() {
    let unrecognized = RunError::ConfigValidation(ConfigKey::Unrecognized);
    for key in ["command", "value-separator", "Separator", "separator ", "allow-unusual-dice", ""] {
        for value in [string("x"), ConfigValue::Boolean(true), ConfigValue::Other] {
            let entries = vec![entry(key, value)];
            assert!(!recognizes(&entries), "{:?}", key);
            assert_eq!(DieConfig::from_entries(&entries).unwrap_err(), unrecognized);
        }
    }
    let last = vec![
        entry("separator", string("-")),
        entry("head-separator", string(" d")),
        entry("warn-unusual-dice", ConfigValue::Boolean(true)),
        entry("renderers", ConfigValue::Other),
    ];
    assert!(!recognizes(&last));
    assert_eq!(DieConfig::from_entries(&last).unwrap_err(), unrecognized);
}

#[test]
fn an_unrecognized_option_is_reported_before_a_wrong_type() {
    let entries = vec![
        entry("head-separator", ConfigValue::Other),
        entry("separator", ConfigValue::Other),
        entry("sides", string("6")),
    ];
    assert_eq!(
        DieConfig::from_entries(&entries).unwrap_err(),
        RunError::ConfigValidation(ConfigKey::Unrecognized)
    );
}

#[test]
fn the_three_options_are_recognized() {
    assert!(recognizes(&vec![]));
    let entries = vec![
        entry("separator", ConfigValue::Other),
        entry("head-separator", string("")),
        entry("warn-unusual-dice", string("no")),
        entry("separator", string("twice")),
    ];
    assert!(recognizes(&entries));
}

#[test]
fn an_unrecognized_option_ends_the_run_before_any_chapter() {
    let chapters = vec!["|d|A|\n|-|-|\n||a|".to_string()];
    let entries = vec![entry("separator", string("-")), entry("colour", string("red"))];
    assert_eq!(
        RollTables.run(&entries, &chapters).unwrap_err(),
        RunError::ConfigValidation(ConfigKey::Unrecognized)
    );
    assert_eq!(
        RollTables.run(&entries, &vec![]).unwrap_err(),
        RunError::ConfigValidation(ConfigKey::Unrecognized)
    );
}
