//! Reading a configuration: from a JSON document to an automaton and a
//! static symbol table.
//!
//! The document is an object with the fields `states`, `tokens` and
//! `accepted_states` (arrays of strings), `initial_state` (a string),
//! `transitions` (an object that maps a state's name to an object that maps
//! a token to a destination name) and `initial_symbol_table` (an object that
//! maps a lexeme to its label).

use crate::automaton::{assemble, fault, row_view, rules_view, Automaton, AutomatonModel};
use crate::error::{ConfigError, ConfigField};
use crate::json::{json_of, keys, member, parse, parsed, record_of, Json};
use crate::names::lemma_take_to_set;
use crate::symbols::SymbolTable;
use vstd::hash_map::StringHashMap;
use vstd::prelude::*;
use vstd::string::*;

verus! {

/// The strings that an array of strings lists; `None` for every other
/// document.
pub open spec fn names_in(doc: Json) -> Option<Seq<Seq<char>>> {
    match doc.items() {
        Some(items) => if forall|i: int| 0 <= i < items.len() ==> (#[trigger] items[i]).text() is Some {
            Some(items.map_values(|item: Json| item.text().unwrap()))
        } else {
            None
        },
        None => None,
    }
}

/// The map that an object of strings holds; `None` for every other document.
pub open spec fn labels_in(doc: Json) -> Option<Map<Seq<char>, Seq<char>>> {
    match doc.members() {
        Some(members) => if forall|key: Seq<char>| #[trigger]
            members.contains_key(key) ==> members[key].text() is Some {
            Some(members.map_values(|value: Json| value.text().unwrap()))
        } else {
            None
        },
        None => None,
    }
}

/// The destination that the document names for `symbol` in `state`, if it
/// names one.
pub open spec fn rule_in(doc: Json, state: Seq<char>, symbol: Seq<char>) -> Option<Seq<char>> {
    doc.member("transitions"@).member(state).member(symbol).text()
}

/// Whether the document names a destination for every pair of a state and a
/// token.
pub open spec fn rules_present(doc: Json, states: Set<Seq<char>>, tokens: Set<Seq<char>>) -> bool {
    forall|s: Seq<char>, t: Seq<char>|
        states.contains(s) && tokens.contains(t) ==> #[trigger] rule_in(doc, s, t) is Some
}

/// The destinations that the document names for one state, by token.
pub open spec fn row_in(doc: Json, state: Seq<char>, tokens: Set<Seq<char>>) -> Map<
    Seq<char>,
    Seq<char>,
> {
    Map::new(|t: Seq<char>| tokens.contains(t), |t: Seq<char>| rule_in(doc, state, t).unwrap())
}

/// The destinations that the document names for the given states and tokens.
pub open spec fn rules_in(doc: Json, states: Set<Seq<char>>, tokens: Set<Seq<char>>) -> Map<
    Seq<char>,
    Map<Seq<char>, Seq<char>>,
> {
    Map::new(|s: Seq<char>| states.contains(s), |s: Seq<char>| row_in(doc, s, tokens))
}

/// Reads the array of strings under `key`.
fn read_names(json: &serde_json::Value, key: &str) -> (r: Option<Vec<String>>)
    ensures
        match names_in(json_of(*json).member(key@)) {
            Some(names) => r is Some && r.unwrap().deep_view() == names,
            None => r is None,
        },
{
    let items = match member(json, key).as_array() {
        Some(items) => items,
        None => {
            return None;
        },
    };
    let ghost listed = json_of(*json).member(key@).items().unwrap();
    let mut names: Vec<String> = Vec::new();
    let mut i: usize = 0;
    while i < items.len()
        invariant
            0 <= i <= items.len(),
            items@.map_values(|v: serde_json::Value| json_of(v)) == listed,
            json_of(*json).member(key@).items() == Some(listed),
            names.len() == i,
            forall|k: int| 0 <= k < i ==> (#[trigger] listed[k]).text() == Some(names[k]@),
        decreases items.len() - i,
    {
        assert(json_of(items@[i as int]) == listed[i as int]);
        match items[i].as_str() {
            Some(name) => {
                names.push(String::from_str(name));
            },
            None => {
                return None;
            },
        }
        i += 1;
    }
    Some(names)
}

/// The declared states, in the order of the document.
pub fn get_states(json: &serde_json::Value) -> (r: Result<Vec<String>, ConfigError>)
    ensures
        match names_in(json_of(*json).member("states"@)) {
            Some(names) => r is Ok && r.unwrap().deep_view() == names,
            None => r == Err::<Vec<String>, ConfigError>(
                ConfigError::Malformed(ConfigField::States),
            ),
        },
{
    match read_names(json, "states") {
        Some(names) => Ok(names),
        None => Err(ConfigError::Malformed(ConfigField::States)),
    }
}

/// The alphabet, in the order of the document.
pub fn get_tokens(json: &serde_json::Value) -> (r: Result<Vec<String>, ConfigError>)
    ensures
        match names_in(json_of(*json).member("tokens"@)) {
            Some(names) => r is Ok && r.unwrap().deep_view() == names,
            None => r == Err::<Vec<String>, ConfigError>(
                ConfigError::Malformed(ConfigField::Tokens),
            ),
        },
{
    match read_names(json, "tokens") {
        Some(names) => Ok(names),
        None => Err(ConfigError::Malformed(ConfigField::Tokens)),
    }
}

/// The accepting states, in the order of the document.
pub fn get_accepted_states(json: &serde_json::Value) -> (r: Result<Vec<String>, ConfigError>)
    ensures
        match names_in(json_of(*json).member("accepted_states"@)) {
            Some(names) => r is Ok && r.unwrap().deep_view() == names,
            None => r == Err::<Vec<String>, ConfigError>(
                ConfigError::Malformed(ConfigField::AcceptedStates),
            ),
        },
{
    match read_names(json, "accepted_states") {
        Some(names) => Ok(names),
        None => Err(ConfigError::Malformed(ConfigField::AcceptedStates)),
    }
}

/// The initial state.
pub fn get_initial_state(json: &serde_json::Value) -> (r: Result<String, ConfigError>)
    ensures
        match json_of(*json).member("initial_state"@).text() {
            Some(name) => r is Ok && r.unwrap()@ == name,
            None => r == Err::<String, ConfigError>(
                ConfigError::Malformed(ConfigField::InitialState),
            ),
        },
{
    match member(json, "initial_state").as_str() {
        Some(name) => Ok(String::from_str(name)),
        None => Err(ConfigError::Malformed(ConfigField::InitialState)),
    }
}

/// Reads the destinations of one state: one for each token, or `None` where
/// the document lacks one.
fn read_row(json: &serde_json::Value, state: &str, tokens: &Vec<String>) -> (r: Option<
    StringHashMap<String>,
>)
    ensures
        match r {
            Some(row) => {
                &&& row_view(row) == row_in(json_of(*json), state@, tokens.deep_view().to_set())
                &&& forall|t: Seq<char>|
                    tokens.deep_view().to_set().contains(t) ==> #[trigger] rule_in(
                        json_of(*json),
                        state@,
                        t,
                    ) is Some
            },
            None => exists|t: Seq<char>|
                tokens.deep_view().to_set().contains(t) && #[trigger] rule_in(
                    json_of(*json),
                    state@,
                    t,
                ) is None,
        },
{
    let ghost doc = json_of(*json);
    let given = member(member(json, "transitions"), state);
    let mut row = StringHashMap::<String>::new();
    let mut j: usize = 0;
    while j < tokens.len()
        invariant
            0 <= j <= tokens.len(),
            doc == json_of(*json),
            json_of(*given) == doc.member("transitions"@).member(state@),
            row@.dom() == tokens.deep_view().take(j as int).to_set(),
            forall|t: Seq<char>| #[trigger]
                row@.contains_key(t) ==> rule_in(doc, state@, t) == Some(row@[t]@),
        decreases tokens.len() - j,
    {
        let token = &tokens[j];
        proof {
            lemma_take_to_set(tokens.deep_view(), j as int);
        }
        match member(given, token.as_str()).as_str() {
            Some(to) => {
                row.insert(token.clone(), String::from_str(to));
            },
            None => {
                assert(rule_in(doc, state@, token@) is None);
                return None;
            },
        }
        j += 1;
    }
    proof {
        assert(tokens.deep_view().take(tokens.len() as int) =~= tokens.deep_view());
    }
    Some(row)
}

/// The transition rules: for each declared state, the destination that the
/// document names for each token. Entries of the document for other states
/// or tokens are not read.
pub fn get_transitions(json: &serde_json::Value, states: &Vec<String>, tokens: &Vec<String>) -> (r:
    Result<StringHashMap<StringHashMap<String>>, ConfigError>)
    ensures
        if rules_present(json_of(*json), states.deep_view().to_set(), tokens.deep_view().to_set()) {
            r is Ok && rules_view(r.unwrap()@) == rules_in(
                json_of(*json),
                states.deep_view().to_set(),
                tokens.deep_view().to_set(),
            )
        } else {
            r matches Err(error) && error == ConfigError::MissingTransition
        },
{
    let ghost doc = json_of(*json);
    let ghost symbols = tokens.deep_view().to_set();
    let mut rules = StringHashMap::<StringHashMap<String>>::new();
    let mut i: usize = 0;
    while i < states.len()
        invariant
            0 <= i <= states.len(),
            doc == json_of(*json),
            symbols == tokens.deep_view().to_set(),
            rules@.dom() == states.deep_view().take(i as int).to_set(),
            forall|s: Seq<char>| #[trigger]
                rules@.contains_key(s) ==> row_view(rules@[s]) == row_in(doc, s, symbols),
            rules_present(doc, states.deep_view().take(i as int).to_set(), symbols),
        decreases states.len() - i,
    {
        let state = &states[i];
        proof {
            lemma_take_to_set(states.deep_view(), i as int);
        }
        match read_row(json, state.as_str(), tokens) {
            Some(row) => {
                rules.insert(state.clone(), row);
            },
            None => {
                return Err(ConfigError::MissingTransition);
            },
        }
        i += 1;
    }
    proof {
        assert(states.deep_view().take(states.len() as int) =~= states.deep_view());
    }
    Ok(rules)
}

/// The static symbol table.
pub fn get_initial_symbol_table(json: &serde_json::Value) -> (r: Result<SymbolTable, ConfigError>)
    ensures
        match labels_in(json_of(*json).member("initial_symbol_table"@)) {
            Some(labels) => r is Ok && r.unwrap()@ == labels,
            None => r matches Err(error) && error == ConfigError::Malformed(
                ConfigField::InitialSymbolTable,
            ),
        },
{
    let given = member(json, "initial_symbol_table");
    let lexemes = match given.as_object() {
        Some(members) => keys(members),
        None => {
            return Err(ConfigError::Malformed(ConfigField::InitialSymbolTable));
        },
    };
    let ghost members = json_of(*given).members().unwrap();
    let mut table = SymbolTable::new();
    let mut i: usize = 0;
    while i < lexemes.len()
        invariant
            0 <= i <= lexemes.len(),
            json_of(*given) == json_of(*json).member("initial_symbol_table"@),
            json_of(*given).members() == Some(members),
            lexemes.deep_view().to_set() == members.dom(),
            table@.dom() == lexemes.deep_view().take(i as int).to_set(),
            forall|key: Seq<char>| #[trigger]
                table@.contains_key(key) ==> members[key].text() == Some(table@[key]),
        decreases lexemes.len() - i,
    {
        let lexeme = &lexemes[i];
        proof {
            lemma_take_to_set(lexemes.deep_view(), i as int);
        }
        match member(given, lexeme.as_str()).as_str() {
            Some(label) => {
                table.insert(lexeme.clone(), String::from_str(label));
            },
            None => {
                return Err(ConfigError::Malformed(ConfigField::InitialSymbolTable));
            },
        }
        i += 1;
    }
    proof {
        assert(lexemes.deep_view().take(lexemes.len() as int) =~= lexemes.deep_view());
    }
    Ok(table)
}

/// A loaded configuration.
pub struct Config {
    pub automaton: Automaton,
    pub symbols: SymbolTable,
}

/// What a configuration holds.
pub struct ConfigModel {
    pub automaton: AutomatonModel,
    pub symbols: Map<Seq<char>, Seq<char>>,
}

impl View for Config {
    type V = ConfigModel;

    open spec fn view(&self) -> ConfigModel {
        ConfigModel { automaton: self.automaton@, symbols: self.symbols@ }
    }
}

/// What reading yields, as the model of the configuration or the error.
pub open spec fn config_view(r: Result<Config, ConfigError>) -> Result<ConfigModel, ConfigError> {
    match r {
        Ok(config) => Ok(config@),
        Err(error) => Err(error),
    }
}

/// The configuration that a document describes, or the first thing that is
/// wrong with it. The fields are read in the order of this definition.
pub open spec fn config_of(doc: Json) -> Result<ConfigModel, ConfigError> {
    match names_in(doc.member("states"@)) {
        None => Err(ConfigError::Malformed(ConfigField::States)),
        Some(states) => match names_in(doc.member("tokens"@)) {
            None => Err(ConfigError::Malformed(ConfigField::Tokens)),
            Some(tokens) => match labels_in(doc.member("initial_symbol_table"@)) {
                None => Err(ConfigError::Malformed(ConfigField::InitialSymbolTable)),
                Some(symbols) => match names_in(doc.member("accepted_states"@)) {
                    None => Err(ConfigError::Malformed(ConfigField::AcceptedStates)),
                    Some(accepted) => if !rules_present(doc, states.to_set(), tokens.to_set()) {
                        Err(ConfigError::MissingTransition)
                    } else {
                        match doc.member("initial_state"@).text() {
                            None => Err(ConfigError::Malformed(ConfigField::InitialState)),
                            Some(initial) => match fault(
                                states.to_set(),
                                tokens.to_set(),
                                rules_in(doc, states.to_set(), tokens.to_set()),
                                initial,
                                accepted.to_set(),
                            ) {
                                Some(error) => Err(error),
                                None => Ok(
                                    ConfigModel {
                                        automaton: assemble(
                                            states.to_set(),
                                            tokens.to_set(),
                                            rules_in(doc, states.to_set(), tokens.to_set()),
                                            initial,
                                            accepted.to_set(),
                                        ),
                                        symbols,
                                    },
                                ),
                            },
                        }
                    },
                },
            },
        },
    }
}

/// Builds the configuration that a parsed document describes.
pub fn read_config(json: &serde_json::Value) -> (r: Result<Config, ConfigError>)
    ensures
        config_view(r) == config_of(json_of(*json)),
{
    let states = match get_states(json) {
        Ok(states) => states,
        Err(error) => {
            return Err(error);
        },
    };
    let tokens = match get_tokens(json) {
        Ok(tokens) => tokens,
        Err(error) => {
            return Err(error);
        },
    };
    let symbols = match get_initial_symbol_table(json) {
        Ok(symbols) => symbols,
        Err(error) => {
            return Err(error);
        },
    };
    let accepted = match get_accepted_states(json) {
        Ok(accepted) => accepted,
        Err(error) => {
            return Err(error);
        },
    };
    let rules = match get_transitions(json, &states, &tokens) {
        Ok(rules) => rules,
        Err(error) => {
            return Err(error);
        },
    };
    let initial = match get_initial_state(json) {
        Ok(initial) => initial,
        Err(error) => {
            return Err(error);
        },
    };
    match Automaton::from_rules(states, tokens, rules, initial, accepted) {
        Ok(automaton) => Ok(Config { automaton, symbols }),
        Err(error) => Err(error),
    }
}

/// Parses a configuration text and builds the configuration it describes.
pub fn load_config(text: &str) -> (r: Result<Config, ConfigError>)
    ensures
        match parsed(text@) {
            Some(doc) => config_view(r) == config_of(doc),
            None => config_view(r) == Err::<ConfigModel, ConfigError>(ConfigError::Syntax),
        },
{
    match parse(text) {
        Ok(json) => read_config(&json),
        Err(_) => Err(ConfigError::Syntax),
    }
}

} // verus!
