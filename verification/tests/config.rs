use dynamic_dfa::automaton::Destination;
use dynamic_dfa::config::{
    get_accepted_states, get_initial_state, get_initial_symbol_table, get_states, get_tokens,
    get_transitions, load_config, read_config,
};
use dynamic_dfa::error::{ConfigError, ConfigField, RejectError, Rejection};
use dynamic_dfa::symbols::SymbolEntry;
use dynamic_dfa::validate;

const SOUND: &str = r#"{
    "states": ["s0", "s1"],
    "tokens": ["a", "b"],
    "transitions": {
        "s0": {"a": "s1", "b": "rejected"},
        "s1": {"a": "rejected", "b": "s0"}
    },
    "initial_state": "s0",
    "accepted_states": ["s1"],
    "initial_symbol_table": {"ba": "pair", "a": "letter"}
}"#;

fn document(text: &str) -> serde_json::Value {
    match serde_json::from_str(text) {
        Ok(value) => value,
        Err(error) => panic!("the text is JSON, yet: {}", error),
    }
}

fn names(items: &[&str]) -> Vec<String> {
    items.iter().map(|item| item.to_string()).collect()
}

fn entry(lexeme: &str, label: &str) -> SymbolEntry {
    SymbolEntry { lexeme: lexeme.to_string(), label: label.to_string() }
}

fn replaced(from: &str, to: &str) -> String {
    assert!(SOUND.contains(from));
    SOUND.replacen(from, to, 1)
}

#[test]
fn sound_configuration_loads() {
    let config = match load_config(SOUND) {
        Ok(config) => config,
        Err(error) => panic!("the configuration is sound, yet: {:?}", error),
    };
    assert_eq!(config.automaton.initial(), "s0");
    assert_eq!(config.automaton.alphabet(), &names(&["a", "b"]));
    assert!(config.automaton.is_accepting("s1"));
    assert!(!config.automaton.is_accepting("s0"));
    assert_eq!(config.automaton.step("s0", "a"), Destination::State("s1".to_string()));
    assert_eq!(config.automaton.step("s0", "b"), Destination::Reject);
    assert_eq!(config.automaton.step("s1", "b"), Destination::State("s0".to_string()));
    assert_eq!(config.symbols.classify("ba"), Some("pair".to_string()));
    assert_eq!(config.symbols.classify("a"), Some("letter".to_string()));
    assert_eq!(config.symbols.classify("b"), None);
}

#[test]
fn loaded_configuration_validates_input() {
    let config = match load_config(SOUND) {
        Ok(config) => config,
        Err(error) => panic!("the configuration is sound, yet: {:?}", error),
    };
    let accepted = validate("a b a", &config.automaton, &config.symbols);
    assert_eq!(accepted.verdict, Ok(()));
    assert_eq!(
        accepted.emitted,
        vec![entry("a", "letter"), entry("", "s1"), entry("ba", "pair"), entry("", "s1")]
    );
    let rejected = validate("a b", &config.automaton, &config.symbols);
    assert_eq!(rejected.verdict, Err(Rejection::Walk(RejectError::NotAccepting)));
}

#[test]
fn text_that_is_no_json_is_a_syntax_error() {
    assert_eq!(load_config("").err(), Some(ConfigError::Syntax));
    assert_eq!(load_config("{\"states\": [").err(), Some(ConfigError::Syntax));
    assert_eq!(load_config("states = s0").err(), Some(ConfigError::Syntax));
    let trailing = format!("{} x", SOUND);
    assert_eq!(load_config(&trailing).err(), Some(ConfigError::Syntax));
}

#[test]
fn document_that_is_no_object_lacks_its_first_field() {
    assert_eq!(load_config("[]").err(), Some(ConfigError::Malformed(ConfigField::States)));
    assert_eq!(load_config("null").err(), Some(ConfigError::Malformed(ConfigField::States)));
    assert_eq!(load_config("{}").err(), Some(ConfigError::Malformed(ConfigField::States)));
}

#[test]
fn malformed_states_are_refused() {
    let text = replaced(r#""states": ["s0", "s1"]"#, r#""states": ["s0", 1]"#);
    assert_eq!(load_config(&text).err(), Some(ConfigError::Malformed(ConfigField::States)));
    let text = replaced(r#""states": ["s0", "s1"]"#, r#""states": "s0""#);
    assert_eq!(load_config(&text).err(), Some(ConfigError::Malformed(ConfigField::States)));
    let text = replaced(r#""states":"#, r#""nodes":"#);
    assert_eq!(load_config(&text).err(), Some(ConfigError::Malformed(ConfigField::States)));
}

#[test]
fn malformed_tokens_are_refused() {
    let text = replaced(r#""tokens": ["a", "b"]"#, r#""tokens": {"a": "b"}"#);
    assert_eq!(load_config(&text).err(), Some(ConfigError::Malformed(ConfigField::Tokens)));
    let text = replaced(r#""tokens": ["a", "b"]"#, r#""tokens": ["a", null]"#);
    assert_eq!(load_config(&text).err(), Some(ConfigError::Malformed(ConfigField::Tokens)));
}

#[test]
fn malformed_symbol_table_is_refused() {
    let expected = Some(ConfigError::Malformed(ConfigField::InitialSymbolTable));
    let text = replaced(r#"{"ba": "pair", "a": "letter"}"#, r#"["ba", "pair"]"#);
    assert_eq!(load_config(&text).err(), expected);
    let text = replaced(r#"{"ba": "pair", "a": "letter"}"#, r#"{"ba": "pair", "a": 7}"#);
    assert_eq!(load_config(&text).err(), expected);
    let text = replaced(r#""initial_symbol_table":"#, r#""symbols":"#);
    assert_eq!(load_config(&text).err(), expected);
}

#[test]
fn malformed_accepted_states_are_refused() {
    let expected = Some(ConfigError::Malformed(ConfigField::AcceptedStates));
    let text = replaced(r#""accepted_states": ["s1"]"#, r#""accepted_states": "s1""#);
    assert_eq!(load_config(&text).err(), expected);
    let text = replaced(r#""accepted_states": ["s1"]"#, r#""accepted_states": [["s1"]]"#);
    assert_eq!(load_config(&text).err(), expected);
}

#[test]
fn malformed_initial_state_is_refused() {
    let expected = Some(ConfigError::Malformed(ConfigField::InitialState));
    let text = replaced(r#""initial_state": "s0""#, r#""initial_state": ["s0"]"#);
    assert_eq!(load_config(&text).err(), expected);
    let text = replaced(r#""initial_state": "s0","#, "");
    assert_eq!(load_config(&text).err(), expected);
}

#[test]
fn absent_transition_is_refused() {
    let expected = Some(ConfigError::MissingTransition);
    let text = replaced(r#""s1": {"a": "rejected", "b": "s0"}"#, r#""s1": {"b": "s0"}"#);
    assert_eq!(load_config(&text).err(), expected);
    let text = replaced(r#""a": "s1", "b": "rejected""#, r#""a": "s1", "b": 0"#);
    assert_eq!(load_config(&text).err(), expected);
    let text = replaced(r#""transitions":"#, r#""moves":"#);
    assert_eq!(load_config(&text).err(), expected);
}

#[test]
fn undeclared_names_are_refused() {
    let text = replaced(r#""initial_state": "s0""#, r#""initial_state": "s2""#);
    assert_eq!(load_config(&text).err(), Some(ConfigError::UnknownInitialState));
    let text = replaced(r#""accepted_states": ["s1"]"#, r#""accepted_states": ["s1", "s2"]"#);
    assert_eq!(load_config(&text).err(), Some(ConfigError::UnknownAcceptedState));
    let text = replaced(r#""b": "s0""#, r#""b": "s2""#);
    assert_eq!(load_config(&text).err(), Some(ConfigError::UnknownDestination));
}

#[test]
fn fields_are_checked_in_reading_order() {
    let text = replaced(r#""tokens": ["a", "b"]"#, r#""tokens": 1"#)
        .replacen(r#""initial_state": "s0""#, r#""initial_state": 1"#, 1);
    assert_eq!(load_config(&text).err(), Some(ConfigError::Malformed(ConfigField::Tokens)));
    let text = replaced(r#""b": "s0""#, r#""b": 1"#).replacen(
        r#""initial_state": "s0""#,
        r#""initial_state": 1"#,
        1,
    );
    assert_eq!(load_config(&text).err(), Some(ConfigError::MissingTransition));
}

#[test]
fn entries_for_undeclared_states_are_not_read() {
    let text = replaced(r#""s0": {"a": "s1", "b": "rejected"},"#, r#""s0": {"a": "s1", "b": "rejected", "c": 1}, "s7": 3,"#);
    assert!(load_config(&text).is_ok());
}

#[test]
fn read_config_agrees_with_load_config() {
    let config = match read_config(&document(SOUND)) {
        Ok(config) => config,
        Err(error) => panic!("the configuration is sound, yet: {:?}", error),
    };
    assert_eq!(config.automaton.step("s0", "a"), Destination::State("s1".to_string()));
    assert_eq!(config.symbols.classify("ba"), Some("pair".to_string()));
    assert_eq!(
        read_config(&document("{}")).err(),
        Some(ConfigError::Malformed(ConfigField::States))
    );
}

#[test]
fn name_lists_keep_the_order_of_the_document() {
    let json = document(r#"{"states": ["q2", "q0", "q1"], "tokens": ["+", "-"], "accepted_states": []}"#);
    assert_eq!(get_states(&json), Ok(names(&["q2", "q0", "q1"])));
    assert_eq!(get_tokens(&json), Ok(names(&["+", "-"])));
    assert_eq!(get_accepted_states(&json), Ok(Vec::new()));
}

#[test]
fn name_lists_of_other_shapes_are_malformed() {
    let json = document(r#"{"states": [true], "tokens": 3}"#);
    assert_eq!(get_states(&json), Err(ConfigError::Malformed(ConfigField::States)));
    assert_eq!(get_tokens(&json), Err(ConfigError::Malformed(ConfigField::Tokens)));
    assert_eq!(
        get_accepted_states(&json),
        Err(ConfigError::Malformed(ConfigField::AcceptedStates))
    );
}

#[test]
fn initial_state_is_a_string() {
    assert_eq!(get_initial_state(&document(SOUND)), Ok("s0".to_string()));
    assert_eq!(
        get_initial_state(&document(r#"{"initial_state": null}"#)),
        Err(ConfigError::Malformed(ConfigField::InitialState))
    );
}

#[test]
fn symbol_table_holds_every_entry_of_the_document() {
    let json = document(r#"{"initial_symbol_table": {"if": "keyword", "+": "operator", "": "nothing"}}"#);
    let table = match get_initial_symbol_table(&json) {
        Ok(table) => table,
        Err(error) => panic!("the table is sound, yet: {:?}", error),
    };
    assert_eq!(table.classify("if"), Some("keyword".to_string()));
    assert_eq!(table.classify("+"), Some("operator".to_string()));
    assert_eq!(table.classify(""), Some("nothing".to_string()));
    assert_eq!(table.classify("keyword"), None);
    let empty = match get_initial_symbol_table(&document(r#"{"initial_symbol_table": {}}"#)) {
        Ok(table) => table,
        Err(error) => panic!("the table is sound, yet: {:?}", error),
    };
    assert_eq!(empty.classify("if"), None);
}

#[test]
fn transitions_are_read_for_declared_pairs_only() {
    let json = document(SOUND);
    assert!(get_transitions(&json, &names(&["s0", "s1"]), &names(&["a", "b"])).is_ok());
    assert!(get_transitions(&json, &names(&["s0"]), &names(&["a"])).is_ok());
    assert!(get_transitions(&json, &Vec::new(), &names(&["a", "c"])).is_ok());
    assert_eq!(
        get_transitions(&json, &names(&["s0", "s1"]), &names(&["a", "c"])).err(),
        Some(ConfigError::MissingTransition)
    );
    assert_eq!(
        get_transitions(&json, &names(&["s0", "s2"]), &names(&["a"])).err(),
        Some(ConfigError::MissingTransition)
    );
}
