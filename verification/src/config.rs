//! The options that a book sets for its roll tables.

use crate::dice::{default_config, DieConfig, DieConfigView};
use crate::error::{ConfigKey, RunError};
use vstd::prelude::*;
use vstd::string::StringExecFns;

verus! {

/// The value of an option, as far as its type matters here.
#[derive(Debug, PartialEq)]
pub enum ConfigValue {
    String(String),
    Boolean(bool),
    /// A value of any other type: a number, a date, a list, a table.
    Other,
}

/// A `ConfigValue` with its string as a sequence of characters.
pub enum ConfigValueView {
    String(Seq<char>),
    Boolean(bool),
    Other,
}

impl View for ConfigValue {
    type V = ConfigValueView;

    open spec fn view(&self) -> ConfigValueView {
        match *self {
            ConfigValue::String(text) => ConfigValueView::String(text@),
            ConfigValue::Boolean(flag) => ConfigValueView::Boolean(flag),
            ConfigValue::Other => ConfigValueView::Other,
        }
    }
}

/// One option of the book's configuration: its key and its value.
#[derive(Debug, PartialEq)]
pub struct ConfigEntry {
    pub key: String,
    pub value: ConfigValue,
}

impl DeepView for ConfigEntry {
    type V = (Seq<char>, ConfigValueView);

    open spec fn deep_view(&self) -> (Seq<char>, ConfigValueView) {
        (self.key@, self.value@)
    }
}

/// The key of the option that separates the two sizes in a header.
pub open spec fn head_separator_key() -> Seq<char> {
    "head-separator"@
}

/// The key of the option that separates the two results in a row's label.
pub open spec fn separator_key() -> Seq<char> {
    "separator"@
}

/// The key of the option that asks for warnings of uncommon dice.
pub open spec fn warn_unusual_dice_key() -> Seq<char> {
    "warn-unusual-dice"@
}

/// The value of the first entry under the key, if there is one.
pub open spec fn lookup(entries: Seq<(Seq<char>, ConfigValueView)>, key: Seq<char>) -> Option<
    ConfigValueView,
>
    decreases entries.len(),
{
    if entries.len() == 0 {
        None
    } else if entries[0].0 == key {
        Some(entries[0].1)
    } else {
        lookup(entries.drop_first(), key)
    }
}

/// A string option: its value where it is set to a string, the default
/// where it is not set, and no string where it is set to anything else.
pub open spec fn string_option(value: Option<ConfigValueView>, default: Seq<char>) -> Option<
    Seq<char>,
> {
    match value {
        Some(ConfigValueView::String(text)) => Some(text),
        Some(_) => None,
        None => Some(default),
    }
}

/// A boolean option, in the same way.
pub open spec fn bool_option(value: Option<ConfigValueView>, default: bool) -> Option<bool> {
    match value {
        Some(ConfigValueView::Boolean(flag)) => Some(flag),
        Some(_) => None,
        None => Some(default),
    }
}

/// Whether a key is that of one of the three options.
pub open spec fn is_recognized(key: Seq<char>) -> bool {
    key == head_separator_key() || key == separator_key() || key == warn_unusual_dice_key()
}

/// Whether every entry stands under the key of an option.
pub open spec fn all_recognized(entries: Seq<(Seq<char>, ConfigValueView)>) -> bool {
    forall|i: int| 0 <= i < entries.len() ==> is_recognized((#[trigger] entries[i]).0)
}

/// The configuration that the entries stand for, or what is wrong with
/// them. An entry under a key that is no option is an error, whatever the
/// other entries hold. Where every key is an option, the first option, in
/// the order head separator, separator, warning, whose value has the wrong
/// type is the error.
pub open spec fn config_of(entries: Seq<(Seq<char>, ConfigValueView)>) -> Result<
    DieConfigView,
    RunError,
> {
    let head_separator = string_option(
        lookup(entries, head_separator_key()),
        default_config().head_separator,
    );
    let separator = string_option(lookup(entries, separator_key()), default_config().separator);
    let warn_unusual_dice = bool_option(
        lookup(entries, warn_unusual_dice_key()),
        default_config().warn_unusual_dice,
    );
    if !all_recognized(entries) {
        Err(RunError::ConfigValidation(ConfigKey::Unrecognized))
    } else if head_separator is None {
        Err(RunError::ConfigValidation(ConfigKey::HeadSeparator))
    } else if separator is None {
        Err(RunError::ConfigValidation(ConfigKey::Separator))
    } else if warn_unusual_dice is None {
        Err(RunError::ConfigValidation(ConfigKey::WarnUnusualDice))
    } else {
        Ok(
            DieConfigView {
                separator: separator.unwrap(),
                head_separator: head_separator.unwrap(),
                warn_unusual_dice: warn_unusual_dice.unwrap(),
            },
        )
    }
}

/// Finds the value of the first entry under a key.
pub fn find<'a>(entries: &'a Vec<ConfigEntry>, key: &str) -> (value: Option<&'a ConfigValue>)
    ensures
        match value {
            Some(value) => lookup(entries.deep_view(), key@) == Some(value@),
            None => lookup(entries.deep_view(), key@) is None,
        },
{
    let wanted = String::from_str(key);
    let ghost all = entries.deep_view();
    let mut index: usize = 0;
    assert(all.skip(0) =~= all);
    while index < entries.len()
        invariant
            index <= entries.len(),
            all == entries.deep_view(),
            wanted@ == key@,
            lookup(all, key@) == lookup(all.skip(index as int), key@),
        decreases entries.len() - index,
    {
        assert(all.skip(index as int)[0] == entries[index as int].deep_view());
        assert(all.skip(index as int).drop_first() =~= all.skip(index + 1));
        if entries[index].key == wanted {
            return Some(&entries[index].value);
        }
        index = index + 1;
    }
    None
}

/// Whether every entry stands under the key of an option.
pub fn recognizes(entries: &Vec<ConfigEntry>) -> (recognized: bool)
    ensures
        recognized == all_recognized(entries.deep_view()),
{
    let head_separator = String::from_str("head-separator");
    let separator = String::from_str("separator");
    let warn_unusual_dice = String::from_str("warn-unusual-dice");
    let ghost all = entries.deep_view();
    let mut index: usize = 0;
    while index < entries.len()
        invariant
            index <= entries.len(),
            all == entries.deep_view(),
            head_separator@ == head_separator_key(),
            separator@ == separator_key(),
            warn_unusual_dice@ == warn_unusual_dice_key(),
            forall|i: int| 0 <= i < index ==> is_recognized((#[trigger] all[i]).0),
        decreases entries.len() - index,
    {
        let key = &entries[index].key;
        assert(all[index as int].0 == key@);
        if !(*key == head_separator || *key == separator || *key == warn_unusual_dice) {
            assert(!is_recognized(all[index as int].0));
            return false;
        }
        index = index + 1;
    }
    true
}

impl DieConfig {
    /// Reads the configuration from a book's options. An option that is
    /// not set has its default: no head separator, the separator `.`, no
    /// warnings. An entry under any other key than the three options' is
    /// refused, and so is an option whose value has the wrong type.
    pub fn from_entries(entries: &Vec<ConfigEntry>) -> (result: Result<DieConfig, RunError>)
        ensures
            match config_of(entries.deep_view()) {
                Ok(expected) => result is Ok && result.unwrap()@ == expected,
                Err(error) => result is Err && result->Err_0 == error,
            },
    {
        proof {
            reveal_strlit(".");
            reveal_strlit("");
            assert("."@ =~= seq!['.']);
            assert(""@ =~= Seq::<char>::empty());
        }
        if !recognizes(entries) {
            return Err(RunError::ConfigValidation(ConfigKey::Unrecognized));
        }
        let head_separator = match find(entries, "head-separator") {
            Some(ConfigValue::String(text)) => text.clone(),
            Some(_) => {
                return Err(RunError::ConfigValidation(ConfigKey::HeadSeparator));
            },
            None => String::from_str(""),
        };
        let separator = match find(entries, "separator") {
            Some(ConfigValue::String(text)) => text.clone(),
            Some(_) => {
                return Err(RunError::ConfigValidation(ConfigKey::Separator));
            },
            None => String::from_str("."),
        };
        let warn_unusual_dice = match find(entries, "warn-unusual-dice") {
            Some(ConfigValue::Boolean(flag)) => *flag,
            Some(_) => {
                return Err(RunError::ConfigValidation(ConfigKey::WarnUnusualDice));
            },
            None => false,
        };
        Ok(DieConfig { separator, head_separator, warn_unusual_dice })
    }
}

} // verus!
