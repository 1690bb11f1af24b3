//! The simulator: walks the automaton over a token sequence and groups the
//! tokens into the lexemes of the emitted symbol table.
//!
//! Lexemes are not declared; they are inferred. A move into an accepting
//! state lets the current lexeme grow and remembers that state as its label.
//! A move into any other state closes the lexeme: it is emitted under the
//! label remembered last, and the token of the move starts the next one. A
//! lexeme that the static symbol table knows is emitted at once, under the
//! table's label.
//!
//! A lexeme is emitted whenever it is closed, also where it is empty, and a
//! lexeme that is closed before any accepting state was entered is emitted
//! under the empty label.

use crate::automaton::{Automaton, AutomatonModel, Destination, Target};
use crate::error::RejectError;
use crate::symbols::{SymbolEntry, SymbolTable};
use vstd::prelude::*;
use vstd::string::*;

verus! {

/// Where a run stands between two tokens.
pub struct Progress {
    /// The automaton's current state.
    pub state: Seq<char>,
    /// The lexeme that is growing.
    pub lexeme: Seq<char>,
    /// The accepting state entered last; empty before any was entered.
    pub label: Seq<char>,
    /// The entries emitted so far, oldest first.
    pub emitted: Seq<(Seq<char>, Seq<char>)>,
    /// The number of tokens consumed.
    pub consumed: nat,
}

/// What a run yields: its verdict, and the entries it emitted until then.
pub struct Trace {
    pub verdict: Result<(), RejectError>,
    pub emitted: Seq<(Seq<char>, Seq<char>)>,
}

/// A run before its first token.
pub open spec fn start(automaton: AutomatonModel) -> Progress {
    Progress {
        state: automaton.initial,
        lexeme: Seq::empty(),
        label: Seq::empty(),
        emitted: Seq::empty(),
        consumed: 0,
    }
}

/// The lexeme that holds `token` after a move into `next`: the one that was
/// growing, extended, where `next` accepts; the token alone where it does not.
pub open spec fn grown(
    automaton: AutomatonModel,
    progress: Progress,
    next: Seq<char>,
    token: Seq<char>,
) -> Seq<char> {
    if automaton.accepting.contains(next) {
        progress.lexeme + token
    } else {
        token
    }
}

/// Consumes one token; `None` where the automaton has no transition for it.
pub open spec fn advance(
    automaton: AutomatonModel,
    table: Map<Seq<char>, Seq<char>>,
    progress: Progress,
    token: Seq<char>,
) -> Option<Progress> {
    match automaton.step(progress.state, token) {
        Target::Reject => None,
        Target::State(next) => {
            let accepting = automaton.accepting.contains(next);
            let emitted = if accepting {
                progress.emitted
            } else {
                progress.emitted.push((progress.lexeme, progress.label))
            };
            let label = if accepting {
                next
            } else {
                progress.label
            };
            let lexeme = grown(automaton, progress, next, token);
            if table.contains_key(lexeme) {
                Some(
                    Progress {
                        state: next,
                        lexeme: Seq::empty(),
                        label,
                        emitted: emitted.push((lexeme, table[lexeme])),
                        consumed: progress.consumed + 1,
                    },
                )
            } else {
                Some(Progress { state: next, lexeme, label, emitted, consumed: progress.consumed + 1 })
            }
        },
    }
}

/// Ends a run when the tokens are used up: in an accepting state the lexeme
/// that is left is emitted and the input accepted.
pub open spec fn finish(automaton: AutomatonModel, progress: Progress) -> Trace {
    if automaton.accepting.contains(progress.state) {
        Trace {
            verdict: Ok(()),
            emitted: progress.emitted.push((progress.lexeme, progress.label)),
        }
    } else {
        Trace { verdict: Err(RejectError::NotAccepting), emitted: progress.emitted }
    }
}

/// Runs on from `progress` over `tokens`. The first token without a
/// transition ends the run: nothing after it is read, nothing more emitted.
pub open spec fn run_from(
    automaton: AutomatonModel,
    table: Map<Seq<char>, Seq<char>>,
    progress: Progress,
    tokens: Seq<Seq<char>>,
) -> Trace
    decreases tokens.len(),
{
    if tokens.len() == 0 {
        finish(automaton, progress)
    } else {
        match advance(automaton, table, progress, tokens[0]) {
            None => Trace {
                verdict: Err(RejectError::NoTransition { at: progress.consumed as usize }),
                emitted: progress.emitted,
            },
            Some(next) => run_from(automaton, table, next, tokens.drop_first()),
        }
    }
}

/// The run over `tokens` from the initial state.
pub open spec fn trace(
    automaton: AutomatonModel,
    table: Map<Seq<char>, Seq<char>>,
    tokens: Seq<Seq<char>>,
) -> Trace {
    run_from(automaton, table, start(automaton), tokens)
}

/// The outcome of a run.
#[derive(Debug, PartialEq, Eq)]
pub struct RunOutcome {
    /// `Ok` where the input is accepted.
    pub verdict: Result<(), RejectError>,
    /// The entries of the symbol table, in the order in which they were
    /// emitted.
    pub emitted: Vec<SymbolEntry>,
}

impl View for RunOutcome {
    type V = Trace;

    open spec fn view(&self) -> Trace {
        Trace { verdict: self.verdict, emitted: self.emitted.deep_view() }
    }
}

/// Walks the automaton over `tokens` and reports the verdict together with
/// the symbol table emitted on the way.
pub fn run(tokens: &Vec<String>, automaton: &Automaton, symbols: &SymbolTable) -> (r: RunOutcome)
    ensures
        r@ == trace(automaton@, symbols@, tokens.deep_view()),
        r.verdict is Ok <==> automaton@.accepts(tokens.deep_view()),
{
    let mut state: String = automaton.initial().clone();
    let mut lexeme = String::new();
    let mut label = String::new();
    let mut emitted: Vec<SymbolEntry> = Vec::new();
    let mut i: usize = 0;
    proof {
        assert(emitted.deep_view() =~= Seq::<(Seq<char>, Seq<char>)>::empty());
        assert(tokens.deep_view().skip(0) =~= tokens.deep_view());
        lemma_verdict_is_acceptance(automaton@, symbols@, tokens.deep_view());
    }
    while i < tokens.len()
        invariant
            0 <= i <= tokens.len(),
            trace(automaton@, symbols@, tokens.deep_view()).verdict is Ok <==> automaton@.accepts(
                tokens.deep_view(),
            ),
            trace(automaton@, symbols@, tokens.deep_view()) == run_from(
                automaton@,
                symbols@,
                Progress {
                    state: state@,
                    lexeme: lexeme@,
                    label: label@,
                    emitted: emitted.deep_view(),
                    consumed: i as nat,
                },
                tokens.deep_view().skip(i as int),
            ),
        decreases tokens.len() - i,
    {
        let token = &tokens[i];
        let ghost rest = tokens.deep_view().skip(i as int);
        let ghost before = emitted.deep_view();
        proof {
            assert(rest.drop_first() =~= tokens.deep_view().skip(i + 1));
        }
        match automaton.step(state.as_str(), token.as_str()) {
            Destination::Reject => {
                return RunOutcome { verdict: Err(RejectError::NoTransition { at: i }), emitted };
            },
            Destination::State(next) => {
                if automaton.is_accepting(next.as_str()) {
                    label = next.clone();
                } else {
                    let closed = SymbolEntry { lexeme, label: label.clone() };
                    emitted.push(closed);
                    assert(emitted.deep_view() =~= before.push(closed@));
                    lexeme = String::new();
                }
                lexeme.append(token.as_str());
                let ghost kept = emitted.deep_view();
                match symbols.classify(lexeme.as_str()) {
                    Some(known) => {
                        let literal = SymbolEntry { lexeme, label: known };
                        emitted.push(literal);
                        assert(emitted.deep_view() =~= kept.push(literal@));
                        lexeme = String::new();
                    },
                    None => {},
                }
                state = next;
            },
        }
        i += 1;
    }
    if automaton.is_accepting(state.as_str()) {
        let ghost before = emitted.deep_view();
        let last = SymbolEntry { lexeme, label };
        emitted.push(last);
        assert(emitted.deep_view() =~= before.push(last@));
        RunOutcome { verdict: Ok(()), emitted }
    } else {
        RunOutcome { verdict: Err(RejectError::NotAccepting), emitted }
    }
}

/// From any point of a run on, the verdict is `Ok` exactly where the
/// automaton's walk over the tokens that are left ends in an accepting state.
/// Neither the symbol table nor what was emitted has a say in it.
pub proof fn lemma_run_from_verdict(
    automaton: AutomatonModel,
    table: Map<Seq<char>, Seq<char>>,
    progress: Progress,
    tokens: Seq<Seq<char>>,
)
    ensures
        run_from(automaton, table, progress, tokens).verdict is Ok <==> (match automaton.walk(
            progress.state,
            tokens,
        ) {
            Target::State(end) => automaton.accepting.contains(end),
            Target::Reject => false,
        }),
    decreases tokens.len(),
{
    if tokens.len() > 0 {
        match advance(automaton, table, progress, tokens[0]) {
            None => {},
            Some(next) => {
                lemma_run_from_verdict(automaton, table, next, tokens.drop_first());
            },
        }
    }
}

/// The verdict of a run is `Ok` exactly where the automaton accepts the
/// tokens.
pub proof fn lemma_verdict_is_acceptance(
    automaton: AutomatonModel,
    table: Map<Seq<char>, Seq<char>>,
    tokens: Seq<Seq<char>>,
)
    ensures
        trace(automaton, table, tokens).verdict is Ok <==> automaton.accepts(tokens),
{
    lemma_run_from_verdict(automaton, table, start(automaton), tokens);
}

/// From any point of a run on: once the walk over `prefix` has met a token
/// without a transition, what follows the prefix changes nothing.
pub proof fn lemma_run_from_fail_fast(
    automaton: AutomatonModel,
    table: Map<Seq<char>, Seq<char>>,
    progress: Progress,
    prefix: Seq<Seq<char>>,
    rest: Seq<Seq<char>>,
)
    requires
        automaton.walk(progress.state, prefix) is Reject,
    ensures
        run_from(automaton, table, progress, prefix + rest) == run_from(
            automaton,
            table,
            progress,
            prefix,
        ),
        run_from(automaton, table, progress, prefix).verdict matches Err(
            RejectError::NoTransition { .. },
        ),
    decreases prefix.len(),
{
    let whole = prefix + rest;
    assert(whole.drop_first() =~= prefix.drop_first() + rest);
    match advance(automaton, table, progress, prefix[0]) {
        None => {},
        Some(next) => {
            lemma_run_from_fail_fast(automaton, table, next, prefix.drop_first(), rest);
        },
    }
}

/// Fail-fast: once the walk has met a token without a transition, the run is
/// over. Whatever tokens follow, the verdict is the same rejection and the
/// same entries have been emitted.
pub proof fn lemma_fail_fast(
    automaton: AutomatonModel,
    table: Map<Seq<char>, Seq<char>>,
    prefix: Seq<Seq<char>>,
    rest: Seq<Seq<char>>,
)
    requires
        automaton.walk(automaton.initial, prefix) is Reject,
    ensures
        trace(automaton, table, prefix + rest) == trace(automaton, table, prefix),
        trace(automaton, table, prefix).verdict matches Err(RejectError::NoTransition { .. }),
{
    lemma_run_from_fail_fast(automaton, table, start(automaton), prefix, rest);
}

/// Classifier precedence: where the lexeme that holds the token is a literal
/// of the static table, it is emitted at once under the table's label and a
/// fresh lexeme begins, whatever state the move enters and whatever label the
/// run remembers.
pub proof fn lemma_classifier_precedence(
    automaton: AutomatonModel,
    table: Map<Seq<char>, Seq<char>>,
    progress: Progress,
    token: Seq<char>,
    next: Seq<char>,
)
    requires
        automaton.step(progress.state, token) == Target::State(next),
        table.contains_key(grown(automaton, progress, next, token)),
    ensures
        advance(automaton, table, progress, token) matches Some(after) && after.emitted.last() == (
            grown(automaton, progress, next, token),
            table[grown(automaton, progress, next, token)],
        ) && after.lexeme == Seq::<char>::empty() && after.state == next,
{
}

} // verus!
