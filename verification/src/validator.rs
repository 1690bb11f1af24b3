//! Validation of one line of input: tokenize, then run the automaton.

use crate::automaton::{Automaton, AutomatonModel};
use crate::error::{RejectError, Rejection};
use crate::simulator::{run, trace};
use crate::symbols::{SymbolEntry, SymbolTable};
use crate::tokenizer::{get_input_token_array, tokenize};
use vstd::prelude::*;

verus! {

/// Why an input was rejected, in the model.
pub enum Cause {
    /// The input ended inside a token; the fragment that was left.
    Tokenize(Seq<char>),
    /// The automaton did not accept the tokens.
    Walk(RejectError),
}

impl View for Rejection {
    type V = Cause;

    open spec fn view(&self) -> Cause {
        match self {
            Rejection::Tokenize(error) => Cause::Tokenize(error@),
            Rejection::Walk(error) => Cause::Walk(*error),
        }
    }
}

/// What validating an input yields, in the model.
pub struct Report {
    pub verdict: Result<(), Cause>,
    pub emitted: Seq<(Seq<char>, Seq<char>)>,
}

/// What validating `input` yields. An input that cannot be tokenized is
/// rejected before the automaton runs: nothing is emitted for it.
pub open spec fn report(
    input: Seq<char>,
    automaton: AutomatonModel,
    table: Map<Seq<char>, Seq<char>>,
) -> Report {
    match tokenize(input, automaton.alphabet) {
        Err(fragment) => Report { verdict: Err(Cause::Tokenize(fragment)), emitted: Seq::empty() },
        Ok(tokens) => {
            let ran = trace(automaton, table, tokens);
            Report {
                verdict: match ran.verdict {
                    Ok(_) => Ok(()),
                    Err(error) => Err(Cause::Walk(error)),
                },
                emitted: ran.emitted,
            }
        },
    }
}

/// The result of validating an input.
#[derive(Debug, PartialEq, Eq)]
pub struct Validation {
    /// `Ok` where the input is accepted, else the reason why it is not.
    pub verdict: Result<(), Rejection>,
    /// The entries of the symbol table, in the order in which they were
    /// emitted.
    pub emitted: Vec<SymbolEntry>,
}

impl View for Validation {
    type V = Report;

    open spec fn view(&self) -> Report {
        Report {
            verdict: match self.verdict {
                Ok(_) => Ok(()),
                Err(rejection) => Err(rejection@),
            },
            emitted: self.emitted.deep_view(),
        }
    }
}

/// Validates `s`: the input is accepted exactly where it can be cut into
/// tokens and the automaton ends in an accepting state after them.
pub fn validate(s: &str, automaton: &Automaton, symbols: &SymbolTable) -> (r: Validation)
    ensures
        r@ == report(s@, automaton@, symbols@),
        r.verdict is Ok <==> (tokenize(s@, automaton@.alphabet) matches Ok(tokens)
            && automaton@.accepts(tokens)),
{
    match get_input_token_array(s, automaton.alphabet()) {
        Err(error) => {
            let emitted: Vec<SymbolEntry> = Vec::new();
            assert(emitted.deep_view() =~= Seq::<(Seq<char>, Seq<char>)>::empty());
            Validation { verdict: Err(Rejection::Tokenize(error)), emitted }
        },
        Ok(tokens) => {
            let outcome = run(&tokens, automaton, symbols);
            let verdict = match outcome.verdict {
                Ok(_) => Ok(()),
                Err(error) => Err(Rejection::Walk(error)),
            };
            Validation { verdict, emitted: outcome.emitted }
        },
    }
}

/// Validating is a function of the input, the automaton and the symbol
/// table: two validations of the same input against the same automaton and
/// table agree in their verdict and in every entry they emitted.
pub proof fn lemma_validate_deterministic(
    first: Validation,
    second: Validation,
    input: Seq<char>,
    automaton: AutomatonModel,
    table: Map<Seq<char>, Seq<char>>,
)
    requires
        first@ == report(input, automaton, table),
        second@ == report(input, automaton, table),
    ensures
        first@.verdict == second@.verdict,
        first@.emitted == second@.emitted,
        first.verdict is Ok <==> second.verdict is Ok,
{
}

} // verus!
