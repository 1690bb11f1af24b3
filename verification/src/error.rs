//! The ways in which loading a configuration or validating an input fails.

use vstd::prelude::*;

verus! {

/// A field of the configuration document.
#[derive(Clone, Copy, Debug, PartialEq, Eq, Structural)]
pub enum ConfigField {
    States,
    Tokens,
    InitialState,
    AcceptedStates,
    InitialSymbolTable,
}

/// Why a configuration does not describe an automaton.
#[derive(Clone, Copy, Debug, PartialEq, Eq, Structural)]
pub enum ConfigError {
    /// The text is not a JSON document.
    Syntax,
    /// The field is missing or does not have the shape it must have.
    Malformed(ConfigField),
    /// The initial state is not among the declared states.
    UnknownInitialState,
    /// An accepting state is not among the declared states.
    UnknownAcceptedState,
    /// Some declared state has no transition for some symbol of the alphabet.
    MissingTransition,
    /// Some transition leads to a name that is neither a declared state nor
    /// the reject sentinel.
    UnknownDestination,
}

/// The input ended inside a token: `fragment` is what was left over.
#[derive(Clone, Debug, PartialEq, Eq)]
pub struct TokenizeError {
    pub fragment: String,
}

/// Why the automaton did not accept a token sequence.
#[derive(Clone, Copy, Debug, PartialEq, Eq, Structural)]
pub enum RejectError {
    /// The token at index `at` has no transition from the state that the walk
    /// had reached.
    NoTransition { at: usize },
    /// All tokens were consumed and the walk ended in a state that does not
    /// accept.
    NotAccepting,
}

/// Why an input was rejected.
#[derive(Clone, Debug, PartialEq, Eq)]
pub enum Rejection {
    Tokenize(TokenizeError),
    Walk(RejectError),
}

} // verus!
