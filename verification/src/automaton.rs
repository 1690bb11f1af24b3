//! The automaton: its mathematical model, and the executable table that is
//! built from a configuration and looked up while an input is validated.

use crate::error::ConfigError;
use vstd::hash_map::StringHashMap;
use vstd::hash_set::StringHashSet;
use vstd::prelude::*;
use crate::names::{lemma_take_to_set, set_of, subset_of};
use vstd::string::*;

verus! {

/// The name that a transition gives as its destination to reject the input.
pub open spec fn rejected() -> Seq<char> {
    "rejected"@
}

/// Where a transition leads, in the model.
pub enum Target {
    State(Seq<char>),
    Reject,
}

/// The target that a destination name stands for. The sentinel wins over a
/// state of the same name.
pub open spec fn target_of(name: Seq<char>) -> Target {
    if name == rejected() {
        Target::Reject
    } else {
        Target::State(name)
    }
}

/// Where a transition leads.
#[derive(Clone, Debug, PartialEq, Eq)]
pub enum Destination {
    State(String),
    Reject,
}

impl View for Destination {
    type V = Target;

    open spec fn view(&self) -> Target {
        match self {
            Destination::State(name) => Target::State(name@),
            Destination::Reject => Target::Reject,
        }
    }
}

/// A deterministic finite automaton over an alphabet of literal tokens.
pub struct AutomatonModel {
    pub states: Set<Seq<char>>,
    pub alphabet: Set<Seq<char>>,
    pub transition: Map<(Seq<char>, Seq<char>), Target>,
    pub initial: Seq<char>,
    pub accepting: Set<Seq<char>>,
}

impl AutomatonModel {
    /// The transition function is total over states and alphabet and leads to
    /// states only; the initial state and the accepting states are states.
    pub open spec fn wf(self) -> bool {
        &&& self.states.contains(self.initial)
        &&& self.accepting.subset_of(self.states)
        &&& forall|s: Seq<char>, t: Seq<char>|
            self.transition.contains_key((s, t)) <==> self.states.contains(s)
                && self.alphabet.contains(t)
        &&& forall|s: Seq<char>, t: Seq<char>, d: Seq<char>|
            self.transition.contains_key((s, t)) && self.transition[(s, t)] == Target::State(d)
                ==> self.states.contains(d)
    }

    /// One move of the automaton. A symbol outside the alphabet, like a state
    /// that is none, has no transition: the move rejects.
    pub open spec fn step(self, state: Seq<char>, symbol: Seq<char>) -> Target {
        if self.transition.contains_key((state, symbol)) {
            self.transition[(state, symbol)]
        } else {
            Target::Reject
        }
    }

    /// Where the automaton is after it has read `tokens` from `state`.
    pub open spec fn walk(self, state: Seq<char>, tokens: Seq<Seq<char>>) -> Target
        decreases tokens.len(),
    {
        if tokens.len() == 0 {
            Target::State(state)
        } else {
            match self.step(state, tokens[0]) {
                Target::Reject => Target::Reject,
                Target::State(next) => self.walk(next, tokens.drop_first()),
            }
        }
    }

    /// Whether the automaton, started in its initial state, ends in an
    /// accepting state after `tokens`.
    pub open spec fn accepts(self, tokens: Seq<Seq<char>>) -> bool {
        match self.walk(self.initial, tokens) {
            Target::State(end) => self.accepting.contains(end),
            Target::Reject => false,
        }
    }
}

/// The destination names that one row of a transition table holds, by symbol.
pub open spec fn row_view(row: StringHashMap<String>) -> Map<Seq<char>, Seq<char>> {
    row@.map_values(|to: String| to@)
}

/// The destination names of a transition table, row by row.
pub open spec fn rules_view(rules: Map<Seq<char>, StringHashMap<String>>) -> Map<
    Seq<char>,
    Map<Seq<char>, Seq<char>>,
> {
    rules.map_values(|row: StringHashMap<String>| row_view(row))
}

/// Whether the rules give a destination for `symbol` in `state`.
pub open spec fn defined(
    rules: Map<Seq<char>, Map<Seq<char>, Seq<char>>>,
    state: Seq<char>,
    symbol: Seq<char>,
) -> bool {
    rules.contains_key(state) && rules[state].contains_key(symbol)
}

/// Whether a destination name is the sentinel or a declared state.
pub open spec fn known(states: Set<Seq<char>>, name: Seq<char>) -> bool {
    name == rejected() || states.contains(name)
}

/// What is wrong with a configuration, if anything. Where several things are
/// wrong, the first in the order of this definition is reported.
pub open spec fn fault(
    states: Set<Seq<char>>,
    alphabet: Set<Seq<char>>,
    rules: Map<Seq<char>, Map<Seq<char>, Seq<char>>>,
    initial: Seq<char>,
    accepting: Set<Seq<char>>,
) -> Option<ConfigError> {
    if !states.contains(initial) {
        Some(ConfigError::UnknownInitialState)
    } else if !accepting.subset_of(states) {
        Some(ConfigError::UnknownAcceptedState)
    } else if exists|s: Seq<char>, t: Seq<char>|
        states.contains(s) && alphabet.contains(t) && !defined(rules, s, t) {
        Some(ConfigError::MissingTransition)
    } else if exists|s: Seq<char>, t: Seq<char>|
        states.contains(s) && alphabet.contains(t) && !known(states, rules[s][t]) {
        Some(ConfigError::UnknownDestination)
    } else {
        None
    }
}

/// The automaton that a configuration describes. Rules for undeclared states
/// or symbols are not part of it.
pub open spec fn assemble(
    states: Set<Seq<char>>,
    alphabet: Set<Seq<char>>,
    rules: Map<Seq<char>, Map<Seq<char>, Seq<char>>>,
    initial: Seq<char>,
    accepting: Set<Seq<char>>,
) -> AutomatonModel {
    AutomatonModel {
        states,
        alphabet,
        transition: Map::new(
            |p: (Seq<char>, Seq<char>)| states.contains(p.0) && alphabet.contains(p.1),
            |p: (Seq<char>, Seq<char>)| target_of(rules[p.0][p.1]),
        ),
        initial,
        accepting,
    }
}

/// A configuration without fault describes a well-formed automaton.
pub proof fn lemma_assemble_wf(
    states: Set<Seq<char>>,
    alphabet: Set<Seq<char>>,
    rules: Map<Seq<char>, Map<Seq<char>, Seq<char>>>,
    initial: Seq<char>,
    accepting: Set<Seq<char>>,
)
    requires
        fault(states, alphabet, rules, initial, accepting) is None,
    ensures
        assemble(states, alphabet, rules, initial, accepting).wf(),
{
}

/// The map that a list of moves stands for: symbol to destination name.
/// Where a symbol is listed twice, the later entry counts.
pub open spec fn row_of(moves: Seq<(Seq<char>, Seq<char>)>) -> Map<Seq<char>, Seq<char>>
    decreases moves.len(),
{
    if moves.len() == 0 {
        Map::empty()
    } else {
        row_of(moves.drop_last()).insert(moves.last().0, moves.last().1)
    }
}

/// The rules that a list of rows stands for: state to symbol to destination
/// name. Where a state is listed twice, the later row counts.
pub open spec fn rules_of(rows: Seq<(Seq<char>, Seq<(Seq<char>, Seq<char>)>)>) -> Map<
    Seq<char>,
    Map<Seq<char>, Seq<char>>,
>
    decreases rows.len(),
{
    if rows.len() == 0 {
        Map::empty()
    } else {
        rules_of(rows.drop_last()).insert(rows.last().0, row_of(rows.last().1))
    }
}

/// Collects a list of moves into a row.
fn collect_row(moves: &Vec<(String, String)>) -> (r: StringHashMap<String>)
    ensures
        row_view(r) == row_of(moves.deep_view()),
{
    let mut row = StringHashMap::<String>::new();
    let mut j: usize = 0;
    while j < moves.len()
        invariant
            0 <= j <= moves.len(),
            row_view(row) == row_of(moves.deep_view().take(j as int)),
        decreases moves.len() - j,
    {
        proof {
            assert(moves.deep_view().take(j + 1).drop_last() =~= moves.deep_view().take(j as int));
        }
        row.insert(moves[j].0.clone(), moves[j].1.clone());
        j += 1;
    }
    assert(moves.deep_view().take(moves.len() as int) =~= moves.deep_view());
    row
}

/// Collects a list of rows into rules.
fn collect_rules(rows: &Vec<(String, Vec<(String, String)>)>) -> (r: StringHashMap<
    StringHashMap<String>,
>)
    ensures
        rules_view(r@) == rules_of(rows.deep_view()),
{
    let mut rules = StringHashMap::<StringHashMap<String>>::new();
    let mut i: usize = 0;
    while i < rows.len()
        invariant
            0 <= i <= rows.len(),
            rules_view(rules@) == rules_of(rows.deep_view().take(i as int)),
        decreases rows.len() - i,
    {
        let ghost before = rules@;
        proof {
            assert(rows.deep_view().take(i + 1).drop_last() =~= rows.deep_view().take(i as int));
            assert(rows.deep_view().take(i + 1).last() == (
                rows@[i as int].0@,
                rows@[i as int].1.deep_view(),
            ));
        }
        let row = collect_row(&rows[i].1);
        rules.insert(rows[i].0.clone(), row);
        assert(rules_view(rules@) =~= rules_view(before).insert(
            rows@[i as int].0@,
            row_of(rows@[i as int].1.deep_view()),
        ));
        i += 1;
    }
    assert(rows.deep_view().take(rows.len() as int) =~= rows.deep_view());
    rules
}

/// Whether a resolved row holds, for every symbol of the alphabet and for
/// nothing else, the target of the destination that `given` names for it.
spec fn row_resolves(
    row: Map<Seq<char>, Destination>,
    alphabet: Set<Seq<char>>,
    given: Map<Seq<char>, Seq<char>>,
    states: Set<Seq<char>>,
) -> bool {
    &&& row.dom() == alphabet
    &&& forall|t: Seq<char>| #[trigger]
        alphabet.contains(t) ==> known(states, given[t]) && row[t]@ == target_of(given[t])
}

/// Whether the rules give a destination for every symbol of the alphabet in
/// `state`.
fn row_total(
    state: &str,
    alphabet: &Vec<String>,
    rules: &StringHashMap<StringHashMap<String>>,
) -> (r: bool)
    ensures
        r == forall|t: Seq<char>|
            alphabet.deep_view().to_set().contains(t) ==> defined(rules_view(rules@), state@, t),
{
    let mut j: usize = 0;
    while j < alphabet.len()
        invariant
            0 <= j <= alphabet.len(),
            forall|k: int|
                0 <= k < j ==> defined(rules_view(rules@), state@, #[trigger] alphabet.deep_view()[k]),
        decreases alphabet.len() - j,
    {
        let found = match rules.get(state) {
            Some(row) => row.contains_key(alphabet[j].as_str()),
            None => false,
        };
        if !found {
            assert(alphabet.deep_view().to_set().contains(alphabet.deep_view()[j as int]));
            return false;
        }
        j += 1;
    }
    true
}

/// Whether the rules give a destination for every declared state and every
/// symbol of the alphabet.
fn total(
    states: &Vec<String>,
    alphabet: &Vec<String>,
    rules: &StringHashMap<StringHashMap<String>>,
) -> (r: bool)
    ensures
        r == forall|s: Seq<char>, t: Seq<char>|
            states.deep_view().to_set().contains(s) && alphabet.deep_view().to_set().contains(t)
                ==> defined(rules_view(rules@), s, t),
{
    let mut i: usize = 0;
    while i < states.len()
        invariant
            0 <= i <= states.len(),
            forall|k: int, t: Seq<char>|
                0 <= k < i && alphabet.deep_view().to_set().contains(t) ==> #[trigger] defined(
                    rules_view(rules@),
                    states.deep_view()[k],
                    t,
                ),
        decreases states.len() - i,
    {
        if !row_total(states[i].as_str(), alphabet, rules) {
            assert(states.deep_view().to_set().contains(states.deep_view()[i as int]));
            return false;
        }
        i += 1;
    }
    true
}

/// Resolves the destinations that the rules name for `state`: one entry for
/// each symbol of the alphabet, or `None` where a destination is unknown.
fn resolve_row(
    state: &str,
    alphabet: &Vec<String>,
    rules: &StringHashMap<StringHashMap<String>>,
    states: &StringHashSet,
) -> (r: Option<StringHashMap<Destination>>)
    requires
        forall|t: Seq<char>|
            alphabet.deep_view().to_set().contains(t) ==> defined(rules_view(rules@), state@, t),
    ensures
        match r {
            Some(row) => row_resolves(
                row@,
                alphabet.deep_view().to_set(),
                rules_view(rules@)[state@],
                states@,
            ),
            None => exists|t: Seq<char>|
                alphabet.deep_view().to_set().contains(t) && !known(
                    states@,
                    rules_view(rules@)[state@][t],
                ),
        },
{
    let sentinel = String::from_str("rejected");
    let ghost given = rules_view(rules@)[state@];
    let mut row = StringHashMap::<Destination>::new();
    let mut j: usize = 0;
    assert(alphabet.deep_view().take(0).to_set() =~= Set::<Seq<char>>::empty());
    while j < alphabet.len()
        invariant
            0 <= j <= alphabet.len(),
            sentinel@ == rejected(),
            given == rules_view(rules@)[state@],
            forall|t: Seq<char>|
                alphabet.deep_view().to_set().contains(t) ==> defined(rules_view(rules@), state@, t),
            row_resolves(row@, alphabet.deep_view().take(j as int).to_set(), given, states@),
        decreases alphabet.len() - j,
    {
        let symbol = &alphabet[j];
        proof {
            lemma_take_to_set(alphabet.deep_view(), j as int);
            assert(alphabet.deep_view().to_set().contains(alphabet.deep_view()[j as int]));
        }
        let given_row = rules.get(state);
        let to = given_row.unwrap().get(symbol.as_str());
        let to = to.unwrap();
        if *to == sentinel {
            row.insert(symbol.clone(), Destination::Reject);
        } else if states.contains(to.as_str()) {
            row.insert(symbol.clone(), Destination::State(to.clone()));
        } else {
            return None;
        }
        assert(row@.dom() =~= alphabet.deep_view().take(j + 1).to_set());
        j += 1;
    }
    assert(alphabet.deep_view().take(alphabet.len() as int) =~= alphabet.deep_view());
    Some(row)
}

/// An automaton, as loaded from a configuration.
pub struct Automaton {
    alphabet: Vec<String>,
    states: StringHashSet,
    table: StringHashMap<StringHashMap<Destination>>,
    initial: String,
    accepting: StringHashSet,
}

impl View for Automaton {
    type V = AutomatonModel;

    closed spec fn view(&self) -> AutomatonModel {
        AutomatonModel {
            states: self.states@,
            alphabet: self.alphabet.deep_view().to_set(),
            transition: Map::new(
                |p: (Seq<char>, Seq<char>)|
                    self.states@.contains(p.0) && self.alphabet.deep_view().to_set().contains(p.1),
                |p: (Seq<char>, Seq<char>)| self.table@[p.0]@[p.1]@,
            ),
            initial: self.initial@,
            accepting: self.accepting@,
        }
    }
}

impl Automaton {
    #[verifier::type_invariant]
    spec fn inv(self) -> bool {
        &&& self.states@.contains(self.initial@)
        &&& self.accepting@.subset_of(self.states@)
        &&& self.table@.dom() == self.states@
        &&& forall|s: Seq<char>| #[trigger]
            self.states@.contains(s) ==> self.table@[s]@.dom()
                == self.alphabet.deep_view().to_set()
        &&& forall|s: Seq<char>, t: Seq<char>, d: Seq<char>|
            self.states@.contains(s) && self.alphabet.deep_view().to_set().contains(t)
                && self.table@[s]@[t]@ == Target::State(d) ==> self.states@.contains(d)
    }

    /// Checks a configuration and builds the automaton that it describes.
    /// `rules` holds, for a state's name, the destination names by symbol.
    pub fn from_rules(
        states: Vec<String>,
        alphabet: Vec<String>,
        rules: StringHashMap<StringHashMap<String>>,
        initial: String,
        accepting: Vec<String>,
    ) -> (r: Result<Automaton, ConfigError>)
        ensures
            match fault(
                states.deep_view().to_set(),
                alphabet.deep_view().to_set(),
                rules_view(rules@),
                initial@,
                accepting.deep_view().to_set(),
            ) {
                Some(error) => r == Err::<Automaton, ConfigError>(error),
                None => r is Ok && r.unwrap()@ == assemble(
                    states.deep_view().to_set(),
                    alphabet.deep_view().to_set(),
                    rules_view(rules@),
                    initial@,
                    accepting.deep_view().to_set(),
                ),
            },
    {
        let ghost all_states = states.deep_view().to_set();
        let ghost symbols = alphabet.deep_view().to_set();
        let ghost given = rules_view(rules@);
        let state_set = set_of(&states);
        if !state_set.contains(initial.as_str()) {
            return Err(ConfigError::UnknownInitialState);
        }
        let accepting_set = match subset_of(&accepting, &state_set) {
            Some(set) => set,
            None => {
                return Err(ConfigError::UnknownAcceptedState);
            },
        };
        if !total(&states, &alphabet, &rules) {
            return Err(ConfigError::MissingTransition);
        }
        let mut table = StringHashMap::<StringHashMap<Destination>>::new();
        let mut i: usize = 0;
        while i < states.len()
            invariant
                0 <= i <= states.len(),
                all_states == states.deep_view().to_set(),
                symbols == alphabet.deep_view().to_set(),
                given == rules_view(rules@),
                state_set@ == all_states,
                all_states.contains(initial@),
                accepting_set@ == accepting.deep_view().to_set(),
                accepting_set@.subset_of(all_states),
                forall|s: Seq<char>, t: Seq<char>|
                    all_states.contains(s) && symbols.contains(t) ==> defined(given, s, t),
                table@.dom() == states.deep_view().take(i as int).to_set(),
                forall|s: Seq<char>| #[trigger]
                    table@.contains_key(s) ==> row_resolves(
                        table@[s]@,
                        symbols,
                        given[s],
                        all_states,
                    ),
            decreases states.len() - i,
        {
            let state = &states[i];
            proof {
                lemma_take_to_set(states.deep_view(), i as int);
            }
            match resolve_row(state.as_str(), &alphabet, &rules, &state_set) {
                Some(row) => {
                    table.insert(state.clone(), row);
                },
                None => {
                    proof {
                        let t = choose|t: Seq<char>|
                            symbols.contains(t) && !known(all_states, given[state@][t]);
                        assert(all_states.contains(state@) && symbols.contains(t) && !known(
                            all_states,
                            given[state@][t],
                        ));
                    }
                    return Err(ConfigError::UnknownDestination);
                },
            }
            i += 1;
        }
        proof {
            assert(states.deep_view().take(states.len() as int) =~= states.deep_view());
        }
        let automaton = Automaton {
            alphabet,
            states: state_set,
            table,
            initial,
            accepting: accepting_set,
        };
        proof {
            let model = assemble(all_states, symbols, given, automaton.initial@, automaton.accepting@);
            assert(automaton@.transition =~= model.transition);
        }
        Ok(automaton)
    }

    /// Checks a configuration given as lists and builds the automaton that
    /// it describes. `transitions` lists, for a state's name, the moves from
    /// that state: pairs of a symbol and the name of the destination.
    pub fn new(
        states: Vec<String>,
        alphabet: Vec<String>,
        transitions: Vec<(String, Vec<(String, String)>)>,
        initial: String,
        accepting: Vec<String>,
    ) -> (r: Result<Automaton, ConfigError>)
        ensures
            match fault(
                states.deep_view().to_set(),
                alphabet.deep_view().to_set(),
                rules_of(transitions.deep_view()),
                initial@,
                accepting.deep_view().to_set(),
            ) {
                Some(error) => r == Err::<Automaton, ConfigError>(error),
                None => r is Ok && r.unwrap()@ == assemble(
                    states.deep_view().to_set(),
                    alphabet.deep_view().to_set(),
                    rules_of(transitions.deep_view()),
                    initial@,
                    accepting.deep_view().to_set(),
                ),
            },
    {
        let rules = collect_rules(&transitions);
        Automaton::from_rules(states, alphabet, rules, initial, accepting)
    }

    /// The alphabet as a list: every symbol of it, and nothing else.
    pub fn alphabet(&self) -> (r: &Vec<String>)
        ensures
            r.deep_view().to_set() == self@.alphabet,
    {
        &self.alphabet
    }

    /// The state in which every walk starts. Every automaton that exists is
    /// well-formed.
    pub fn initial(&self) -> (r: &String)
        ensures
            r@ == self@.initial,
            self@.wf(),
    {
        proof {
            use_type_invariant(self);
        }
        &self.initial
    }

    /// Whether `state` is an accepting state.
    pub fn is_accepting(&self, state: &str) -> (r: bool)
        ensures
            r == self@.accepting.contains(state@),
    {
        self.accepting.contains(state)
    }

    /// One move: the destination of the transition from `state` on `symbol`.
    pub fn step(&self, state: &str, symbol: &str) -> (r: Destination)
        ensures
            r@ == self@.step(state@, symbol@),
    {
        proof {
            use_type_invariant(self);
        }
        match self.table.get(state) {
            Some(row) => match row.get(symbol) {
                Some(Destination::State(next)) => Destination::State(next.clone()),
                _ => Destination::Reject,
            },
            None => Destination::Reject,
        }
    }
}

} // verus!
