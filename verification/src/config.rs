//! Reading the replacement rules out of the book's configuration.
//!
//! The rules stand in the table `preprocessor.replace.list`: each key is a
//! text to find, its value the text to put in its place. A configuration
//! without that table asks for no replacement. One whose `list` is no table,
//! or gives a key anything but a string, is faulty.
//!
//! The configuration is mdBook's own value, and this module reads it through
//! mdBook and `toml`. What those calls hand out is not re-derived here: each
//! result has a name, and the contracts below say how the rules follow from
//! the named results.

use vstd::prelude::*;
use mdbook::Config;
use toml::Value;
use crate::replacer::{rules_view, Replacement};

verus! {

/// `mdbook::Config`, the configuration of a book.
#[verifier::external_type_specification]
#[verifier::external_body]
pub struct ExConfig(Config);

/// `toml::Value`, one value of a TOML document.
#[verifier::external_type_specification]
#[verifier::external_body]
pub struct ExValue(Value);

/// The item that `Config::get` finds in `config` under `key`, if there is one.
pub uninterp spec fn config_item(config: Config, key: Seq<char>) -> Option<Value>;

/// The member that `Value::get` finds in `value` under the string `key`, if
/// `value` is a table that has one.
pub uninterp spec fn value_member(value: Value, key: Seq<char>) -> Option<Value>;

/// The entries of `value` where it is a table, in the order in which the
/// table is walked: each key with the text of its value, where that value is
/// a string. `None` where `value` is no table.
pub uninterp spec fn table_entries(value: Value) -> Option<Seq<(Seq<char>, Option<Seq<char>>)>>;

/// Calls `Config::get`, which looks `key` up in the configuration and hands
/// out the item found there, if any. The contract gives that item its name
/// and claims nothing else.
#[verifier::external_body]
fn config_get<'a>(config: &'a Config, key: &str) -> (found: Option<&'a Value>)
    ensures
        match found {
            Some(item) => config_item(*config, key@) == Some(*item),
            None => config_item(*config, key@) is None,
        },
{
    config.get(key)
}

/// Calls `Value::get` with a string key, which hands out the member of a
/// table under that key, and nothing where there is no such member or the
/// value is no table. The contract gives that member its name and claims
/// nothing else.
#[verifier::external_body]
fn value_get<'a>(value: &'a Value, key: &str) -> (found: Option<&'a Value>)
    ensures
        match found {
            Some(member) => value_member(*value, key@) == Some(*member),
            None => value_member(*value, key@) is None,
        },
{
    value.get(key)
}

/// Calls `Value::as_table` and walks the table with `Map::iter`, handing each
/// entry out as plain text: a copy of the key and, where `Value::as_str`
/// gives one, a copy of the string that is its value. Gives `None` where
/// `as_table` does. The contract gives the entries their name and claims
/// nothing else.
#[verifier::external_body]
fn entries_of(value: &Value) -> (entries: Option<Vec<(String, Option<String>)>>)
    ensures
        entries.deep_view() == table_entries(*value),
{
    let table = value.as_table()?;
    Some(
        table
            .iter()
            .map(|(key, member)| (key.clone(), member.as_str().map(String::from)))
            .collect(),
    )
}

/// What can be wrong with the rules of a configuration.
#[derive(Debug, Clone, PartialEq, Eq)]
pub enum ConfigError {
    /// `preprocessor.replace.list` is there and is no table.
    NotATable,
    /// The value that the list gives for this key is no string.
    NotAString(String),
}

/// A [`ConfigError`] as a mathematical value.
pub enum ConfigFault {
    NotATable,
    NotAString(Seq<char>),
}

impl View for ConfigError {
    type V = ConfigFault;

    open spec fn view(&self) -> ConfigFault {
        match self {
            ConfigError::NotATable => ConfigFault::NotATable,
            ConfigError::NotAString(key) => ConfigFault::NotAString(key@),
        }
    }
}

/// Whether every entry has a string for its value.
pub open spec fn all_text(entries: Seq<(Seq<char>, Option<Seq<char>>)>) -> bool {
    forall|i: int| 0 <= i < entries.len() ==> (#[trigger] entries[i]).1 is Some
}

/// The index of the first entry whose value is no string; the number of
/// entries where there is none.
pub open spec fn first_without_text(entries: Seq<(Seq<char>, Option<Seq<char>>)>) -> int
    decreases entries.len(),
{
    if entries.len() == 0 || entries[0].1 is None {
        0
    } else {
        1 + first_without_text(entries.skip(1))
    }
}

/// The fault of a row of entries: none where every value is a string, else
/// the key of the first entry whose value is none.
pub open spec fn entries_fault(entries: Seq<(Seq<char>, Option<Seq<char>>)>) -> Option<
    ConfigFault,
> {
    if all_text(entries) {
        None
    } else {
        Some(ConfigFault::NotAString(entries[first_without_text(entries)].0))
    }
}

/// The rules that entries stand for, in the order of the entries: each key is
/// to be replaced by its value.
pub open spec fn rules_of(entries: Seq<(Seq<char>, Option<Seq<char>>)>) -> Seq<
    (Seq<char>, Seq<char>),
>
    recommends
        all_text(entries),
{
    entries.map_values(|entry: (Seq<char>, Option<Seq<char>>)| (entry.0, entry.1.unwrap()))
}

/// The value that holds the rules: what stands in the configuration under
/// `preprocessor`, below that under `replace`, and below that under `list`.
/// `None` as soon as one of the three is missing.
pub open spec fn rules_value(config: Config) -> Option<Value> {
    match config_item(config, "preprocessor"@) {
        Some(preprocessor) => match value_member(preprocessor, "replace"@) {
            Some(replace) => value_member(replace, "list"@),
            None => None,
        },
        None => None,
    }
}

/// The fault of a configuration, if it has one: its list is no table, or an
/// entry of the list has no string for its value. A configuration without a
/// list has no fault.
pub open spec fn config_fault(config: Config) -> Option<ConfigFault> {
    match rules_value(config) {
        None => None,
        Some(list) => match table_entries(list) {
            None => Some(ConfigFault::NotATable),
            Some(entries) => entries_fault(entries),
        },
    }
}

/// The rules that the list of a configuration gives, in the order in which
/// the list is walked. `None` where the configuration has no list, or a
/// faulty one.
pub open spec fn configured_table(config: Config) -> Option<Seq<(Seq<char>, Seq<char>)>> {
    match rules_value(config) {
        None => None,
        Some(list) => match table_entries(list) {
            Some(entries) if all_text(entries) => Some(rules_of(entries)),
            _ => None,
        },
    }
}

/// The rules that a configuration asks for: those of its list, and none
/// where it has no list.
pub open spec fn configured_rules(config: Config) -> Seq<(Seq<char>, Seq<char>)> {
    match configured_table(config) {
        Some(rules) => rules,
        None => Seq::empty(),
    }
}

/// Turns the entries of a table into rules, in the same order. Fails on the
/// first entry whose value is no string, and names its key.
pub fn replacements_from_entries(entries: Vec<(String, Option<String>)>) -> (outcome: Result<
    Vec<Replacement>,
    ConfigError,
>)
    ensures
        match outcome {
            Ok(list) => entries_fault(entries.deep_view()) is None && rules_view(list@) == rules_of(
                entries.deep_view(),
            ),
            Err(error) => entries_fault(entries.deep_view()) == Some(error@),
        },
{
    let ghost model = entries.deep_view();
    let mut list: Vec<Replacement> = Vec::new();
    let n = entries.len();
    let mut i: usize = 0;
    while i < n
        invariant
            i <= n,
            n == entries@.len(),
            entries.deep_view() == model,
            list@.len() == i,
            forall|k: int| 0 <= k < i ==> (#[trigger] model[k]).1 is Some,
            forall|k: int|
                0 <= k < i ==> (#[trigger] list@[k])@ == (model[k].0, model[k].1.unwrap()),
        decreases n - i,
    {
        let entry = &entries[i];
        assert(model[i as int] == entry.deep_view());
        match &entry.1 {
            Some(to) => {
                list.push(Replacement { from: entry.0.clone(), to: to.clone() });
            },
            None => {
                proof {
                    lemma_first_without_text(model, i as int);
                    assert(!all_text(model));
                }
                return Err(ConfigError::NotAString(entry.0.clone()));
            },
        }
        i += 1;
    }
    assert(rules_view(list@) =~= rules_of(model));
    Ok(list)
}

/// The first entry without text is the one before which every entry has text.
proof fn lemma_first_without_text(entries: Seq<(Seq<char>, Option<Seq<char>>)>, at: int)
    requires
        0 <= at < entries.len(),
        entries[at].1 is None,
        forall|k: int| 0 <= k < at ==> (#[trigger] entries[k]).1 is Some,
    ensures
        first_without_text(entries) == at,
    decreases at,
{
    if at > 0 {
        let rest = entries.skip(1);
        assert forall|k: int| 0 <= k < at - 1 implies (#[trigger] rest[k]).1 is Some by {
            assert(entries[k + 1].1 is Some);
        }
        lemma_first_without_text(rest, at - 1);
    }
}

/// Finds the value that holds the rules, going down from `preprocessor` to
/// `replace` to `list` and giving up at the first that is missing.
fn find_rules<'a>(config: &'a Config) -> (found: Option<&'a Value>)
    ensures
        match found {
            Some(list) => rules_value(*config) == Some(*list),
            None => rules_value(*config) is None,
        },
{
    match config_get(config, "preprocessor") {
        Some(preprocessor) => match value_get(preprocessor, "replace") {
            Some(replace) => value_get(replace, "list"),
            None => None,
        },
        None => None,
    }
}

/// Tests a configuration for faults in its rules, and reports the fault
/// found.
pub fn check_config(config: &Config) -> (outcome: Result<(), ConfigError>)
    ensures
        match outcome {
            Ok(()) => config_fault(*config) is None,
            Err(error) => config_fault(*config) == Some(error@),
        },
{
    match find_rules(config) {
        None => Ok(()),
        Some(list) => match entries_of(list) {
            None => Err(ConfigError::NotATable),
            Some(entries) => match replacements_from_entries(entries) {
                Ok(_) => Ok(()),
                Err(error) => Err(error),
            },
        },
    }
}

/// The rules of a configuration; `None` where the configuration has no
/// `preprocessor.replace.list`.
///
/// The rules come in the order in which the table is walked. That is the
/// order of the table's own iterator, which need not be the order in which
/// the keys were written down.
///
/// The configuration must be free of faults; [`check_config`] tests that.
pub fn get_replace_table(config: &Config) -> (table: Option<Vec<Replacement>>)
    requires
        config_fault(*config) is None,
    ensures
        match table {
            Some(list) => configured_table(*config) == Some(rules_view(list@)),
            None => configured_table(*config) is None && rules_value(*config) is None,
        },
{
    match find_rules(config) {
        None => None,
        Some(list) => {
            let entries = entries_of(list).unwrap();
            Some(replacements_from_entries(entries).unwrap())
        },
    }
}

} // verus!
