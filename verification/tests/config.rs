use mdbook::Config;
use mdbook_replace::config::{check_config, get_replace_table, replacements_from_entries, ConfigError};
use mdbook_replace::replacer::{Replacement, Replacer};
use std::str::FromStr;

fn config(text: &str) -> Config {
    Config::from_str(text).unwrap()
}

fn rule(from: &str, to: &str) -> Replacement {
    Replacement { from: from.to_string(), to: to.to_string() }
}

fn entry(key: &str, value: Option<&str>) -> (String, Option<String>) {
    (key.to_string(), value.map(str::to_string))
}

#[test]
fn reads_the_rules_of_the_list() {
    let config = config("[preprocessor.replace.list]\nACME = \"Example Corp\"\nTODO = \"DONE\"\n");
    assert_eq!(check_config(&config), Ok(()));
    assert_eq!(
        get_replace_table(&config),
        Some(vec![rule("ACME", "Example Corp"), rule("TODO", "DONE")])
    );
}

#[test]
fn reads_quoted_and_empty_keys_and_values() {
    let config = config(
        "[preprocessor.replace.list]\n\"two words\" = \"\"\n\"\" = \"|\"\n\"a.b\" = \"c = d\"\n",
    );
    assert_eq!(check_config(&config), Ok(()));
    let mut table = get_replace_table(&config).unwrap();
    table.sort_by(|a, b| a.from.cmp(&b.from));
    assert_eq!(table, vec![rule("", "|"), rule("a.b", "c = d"), rule("two words", "")]);
}

#[test]
fn rules_come_in_the_order_in_which_the_table_is_walked() {
    let config = config("[preprocessor.replace.list]\nzebra = \"1\"\napple = \"2\"\nmango = \"3\"\n");
    let walked: Vec<Replacement> = config
        .get("preprocessor.replace.list")
        .unwrap()
        .as_table()
        .unwrap()
        .iter()
        .map(|(key, value)| rule(key, value.as_str().unwrap()))
        .collect();
    assert_eq!(walked.len(), 3);
    assert_eq!(get_replace_table(&config), Some(walked));
}

#[test]
fn an_empty_list_gives_no_rules() {
    let config = config("[preprocessor.replace.list]\n");
    assert_eq!(check_config(&config), Ok(()));
    assert_eq!(get_replace_table(&config), Some(vec![]));
}

#[test]
fn no_preprocessor_section_is_no_table() {
    let config = config("[book]\ntitle = \"A book\"\n");
    assert_eq!(check_config(&config), Ok(()));
    assert_eq!(get_replace_table(&config), None);
}

#[test]
fn no_replace_section_is_no_table() {
    let config = config("[preprocessor.links]\n\n[preprocessor.index]\n");
    assert_eq!(check_config(&config), Ok(()));
    assert_eq!(get_replace_table(&config), None);
}

#[test]
fn no_list_is_no_table() {
    let config = config("[preprocessor.replace]\ncommand = \"mdbook-replace\"\n");
    assert_eq!(check_config(&config), Ok(()));
    assert_eq!(get_replace_table(&config), None);
}

#[test]
fn a_section_that_is_no_table_has_no_list() {
    let flat_preprocessor = config("preprocessor = \"none\"\n");
    assert_eq!(check_config(&flat_preprocessor), Ok(()));
    assert_eq!(get_replace_table(&flat_preprocessor), None);
    let flat_replace = config("[preprocessor]\nreplace = 3\n");
    assert_eq!(check_config(&flat_replace), Ok(()));
    assert_eq!(get_replace_table(&flat_replace), None);
}

#[test]
fn a_list_that_is_no_table_is_a_fault() {
    assert_eq!(
        check_config(&config("[preprocessor.replace]\nlist = \"a = b\"\n")),
        Err(ConfigError::NotATable)
    );
    assert_eq!(
        check_config(&config("[preprocessor.replace]\nlist = [\"a\", \"b\"]\n")),
        Err(ConfigError::NotATable)
    );
    assert_eq!(
        check_config(&config("[preprocessor.replace]\nlist = 7\n")),
        Err(ConfigError::NotATable)
    );
}

#[test]
fn a_value_that_is_no_string_is_a_fault() {
    assert_eq!(
        check_config(&config("[preprocessor.replace.list]\nACME = \"Example Corp\"\nTODO = 3\n")),
        Err(ConfigError::NotAString("TODO".to_string()))
    );
    assert_eq!(
        check_config(&config("[preprocessor.replace.list]\nflag = true\n")),
        Err(ConfigError::NotAString("flag".to_string()))
    );
    assert_eq!(
        check_config(&config("[preprocessor.replace.list.nested]\na = \"b\"\n")),
        Err(ConfigError::NotAString("nested".to_string()))
    );
}

#[test]
fn entries_with_text_become_rules_in_order() {
    let entries = vec![entry("b", Some("c")), entry("a", Some("b")), entry("", Some(""))];
    assert_eq!(
        replacements_from_entries(entries),
        Ok(vec![rule("b", "c"), rule("a", "b"), rule("", "")])
    );
    assert_eq!(replacements_from_entries(vec![]), Ok(vec![]));
}

#[test]
fn the_first_entry_without_text_is_reported() {
    let entries = vec![entry("a", Some("b")), entry("x", None), entry("c", Some("d")), entry("y", None)];
    assert_eq!(replacements_from_entries(entries), Err(ConfigError::NotAString("x".to_string())));
    assert_eq!(
        replacements_from_entries(vec![entry("only", None)]),
        Err(ConfigError::NotAString("only".to_string()))
    );
}

#[test]
fn a_replacer_is_made_from_a_sound_configuration() {
    let config = config("[preprocessor.replace.list]\nACME = \"Example Corp\"\nTODO = \"DONE\"\n");
    let expected = Replacer { list: vec![rule("ACME", "Example Corp"), rule("TODO", "DONE")] };
    assert_eq!(Replacer::try_new(&config), Ok(expected.clone()));
    assert_eq!(Replacer::new(&config), expected);
}

#[test]
fn a_replacer_without_rules_is_made_where_the_list_is_absent() {
    let config = config("[book]\ntitle = \"A book\"\n");
    assert_eq!(Replacer::try_new(&config), Ok(Replacer { list: vec![] }));
    assert_eq!(Replacer::new(&config), Replacer { list: vec![] });
}

#[test]
fn no_replacer_is_made_from_a_faulty_configuration() {
    assert_eq!(
        Replacer::try_new(&config("[preprocessor.replace]\nlist = 7\n")),
        Err(ConfigError::NotATable)
    );
    assert_eq!(
        Replacer::try_new(&config("[preprocessor.replace.list]\na = 1\n")),
        Err(ConfigError::NotAString("a".to_string()))
    );
}
