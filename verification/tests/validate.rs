use dynamic_dfa::automaton::Automaton;
use dynamic_dfa::error::{RejectError, Rejection, TokenizeError};
use dynamic_dfa::symbols::{SymbolEntry, SymbolTable};
use dynamic_dfa::validate;

fn names(items: &[&str]) -> Vec<String> {
    items.iter().map(|item| item.to_string()).collect()
}

fn row(state: &str, moves: &[(&str, &str)]) -> (String, Vec<(String, String)>) {
    (
        state.to_string(),
        moves.iter().map(|(symbol, to)| (symbol.to_string(), to.to_string())).collect(),
    )
}

fn entry(lexeme: &str, label: &str) -> SymbolEntry {
    SymbolEntry { lexeme: lexeme.to_string(), label: label.to_string() }
}

fn alternating() -> Automaton {
    match Automaton::new(
        names(&["s0", "s1"]),
        names(&["a", "b"]),
        vec![
            row("s0", &[("a", "s1"), ("b", "rejected")]),
            row("s1", &[("a", "rejected"), ("b", "s0")]),
        ],
        "s0".to_string(),
        names(&["s1"]),
    ) {
        Ok(automaton) => automaton,
        Err(error) => panic!("the configuration is sound, yet: {:?}", error),
    }
}

#[test]
fn input_that_ends_in_the_start_state_is_rejected() {
    let result = validate("a b a b", &alternating(), &SymbolTable::new());
    assert_eq!(result.verdict, Err(Rejection::Walk(RejectError::NotAccepting)));
    assert_eq!(result.emitted, vec![entry("a", "s1"), entry("ba", "s1")]);
}

#[test]
fn input_that_ends_in_the_accepting_state_is_accepted() {
    let result = validate("a b a", &alternating(), &SymbolTable::new());
    assert_eq!(result.verdict, Ok(()));
    assert_eq!(result.emitted, vec![entry("a", "s1"), entry("ba", "s1")]);
    // The line flushed at the end carries the label of the accepting state
    // that was entered last.
    assert_eq!(result.emitted[1].label, "s1");
    assert_eq!(result.emitted[1].line(), "token: ba token_type: s1");
}

#[test]
fn dangling_fragment_rejects_before_the_automaton_runs() {
    let result = validate("a bx", &alternating(), &SymbolTable::new());
    assert_eq!(
        result.verdict,
        Err(Rejection::Tokenize(TokenizeError { fragment: "x".to_string() }))
    );
    assert_eq!(result.emitted, Vec::new());
}

#[test]
fn separators_are_optional_between_single_character_tokens() {
    let automaton = alternating();
    let table = SymbolTable::new();
    assert_eq!(validate("aba", &automaton, &table), validate("a b a", &automaton, &table));
    assert_eq!(validate("  a  ba ", &automaton, &table), validate("a b a", &automaton, &table));
}

#[test]
fn empty_input_is_rejected_in_a_rejecting_start_state() {
    let result = validate("", &alternating(), &SymbolTable::new());
    assert_eq!(result.verdict, Err(Rejection::Walk(RejectError::NotAccepting)));
    assert_eq!(result.emitted, Vec::new());
}

#[test]
fn rejected_transition_reports_the_index_of_the_token() {
    let result = validate("a b b a", &alternating(), &SymbolTable::new());
    assert_eq!(result.verdict, Err(Rejection::Walk(RejectError::NoTransition { at: 2 })));
    assert_eq!(result.emitted, vec![entry("a", "s1")]);
}

#[test]
fn rest_of_the_input_is_not_consulted_after_a_rejected_transition() {
    let automaton = alternating();
    let table = SymbolTable::new();
    let short = validate("a a", &automaton, &table);
    let long = validate("a a b a b a", &automaton, &table);
    assert_eq!(short.verdict, Err(Rejection::Walk(RejectError::NoTransition { at: 1 })));
    assert_eq!(short.emitted, Vec::new());
    assert_eq!(long, short);
}

#[test]
fn verdict_is_accept_exactly_for_accepted_walks() {
    let automaton = alternating();
    let table = SymbolTable::new();
    let accepted = ["a", "a b a", "ababa", " a b a b a "];
    let rejected = ["", "b", "a b", "a a", "a b a b", "a x", "a bx", "x"];
    for input in accepted {
        assert!(validate(input, &automaton, &table).verdict.is_ok(), "{:?}", input);
    }
    for input in rejected {
        assert!(validate(input, &automaton, &table).verdict.is_err(), "{:?}", input);
    }
}

#[test]
fn validating_twice_gives_the_same_verdict_and_lines() {
    let automaton = alternating();
    let mut table = SymbolTable::new();
    table.insert("ba".to_string(), "pair".to_string());
    for input in ["", "a", "a b a", "a b a b", "a a", "a bx"] {
        let first = validate(input, &automaton, &table);
        let second = validate(input, &automaton, &table);
        assert_eq!(first.verdict, second.verdict);
        assert_eq!(first.emitted, second.emitted);
    }
}

#[test]
fn static_table_overrides_the_label_of_the_accepting_state() {
    let mut table = SymbolTable::new();
    table.insert("ba".to_string(), "pair".to_string());
    let result = validate("a b a", &alternating(), &table);
    assert_eq!(result.verdict, Ok(()));
    assert_eq!(result.emitted, vec![entry("a", "s1"), entry("ba", "pair"), entry("", "s1")]);
}
