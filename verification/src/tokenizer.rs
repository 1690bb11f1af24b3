//! The tokenizer: cuts a line of text into tokens against an alphabet of
//! literal tokens.

use crate::error::TokenizeError;
use crate::names::set_of;
use vstd::prelude::*;
use vstd::string::*;

verus! {

/// What a scan has found so far: the tokens that are complete, and the
/// characters of the token that is still growing.
pub struct Scan {
    pub tokens: Seq<Seq<char>>,
    pub pending: Seq<char>,
}

/// The scan before it has read anything.
pub open spec fn scan_start() -> Scan {
    Scan { tokens: Seq::empty(), pending: Seq::empty() }
}

/// Reads one character. A space ends the pending token, whether or not it is
/// in the alphabet, and is dropped. Any other character is added to the
/// pending token, which ends at once where it now equals a member of the
/// alphabet.
pub open spec fn scan_char(scan: Scan, c: char, alphabet: Set<Seq<char>>) -> Scan {
    if c == ' ' {
        if scan.pending.len() > 0 {
            Scan { tokens: scan.tokens.push(scan.pending), pending: Seq::empty() }
        } else {
            scan
        }
    } else {
        let grown = scan.pending.push(c);
        if alphabet.contains(grown) {
            Scan { tokens: scan.tokens.push(grown), pending: Seq::empty() }
        } else {
            Scan { tokens: scan.tokens, pending: grown }
        }
    }
}

/// The scan after it has read all of `input`, character by character.
pub open spec fn scan(input: Seq<char>, alphabet: Set<Seq<char>>) -> Scan
    decreases input.len(),
{
    if input.len() == 0 {
        scan_start()
    } else {
        scan_char(scan(input.drop_last(), alphabet), input.last(), alphabet)
    }
}

/// The tokens of `input`, or the fragment that is left pending at its end.
pub open spec fn tokenize(input: Seq<char>, alphabet: Set<Seq<char>>) -> Result<
    Seq<Seq<char>>,
    Seq<char>,
> {
    let end = scan(input, alphabet);
    if end.pending.len() == 0 {
        Ok(end.tokens)
    } else {
        Err(end.pending)
    }
}

impl View for TokenizeError {
    type V = Seq<char>;

    open spec fn view(&self) -> Seq<char> {
        self.fragment@
    }
}

/// A tokenizer's result, as the tokens or the fragment that it holds.
pub open spec fn tokens_view(r: Result<Vec<String>, TokenizeError>) -> Result<
    Seq<Seq<char>>,
    Seq<char>,
> {
    match r {
        Ok(tokens) => Ok(tokens.deep_view()),
        Err(error) => Err(error@),
    }
}

/// Cuts `s` into tokens against the alphabet `tokens`. A token that a space
/// ends need not be in the alphabet. The input must not end inside a token:
/// what is pending then comes back as the error.
pub fn get_input_token_array(s: &str, tokens: &Vec<String>) -> (r: Result<
    Vec<String>,
    TokenizeError,
>)
    ensures
        tokens_view(r) == tokenize(s@, tokens.deep_view().to_set()),
{
    let alphabet = set_of(tokens);
    let n = s.unicode_len();
    let mut found: Vec<String> = Vec::new();
    let mut start: usize = 0;
    let mut i: usize = 0;
    while i < n
        invariant
            0 <= start <= i <= n,
            n == s@.len(),
            alphabet@ == tokens.deep_view().to_set(),
            found.deep_view() == scan(s@.take(i as int), alphabet@).tokens,
            s@.subrange(start as int, i as int) == scan(s@.take(i as int), alphabet@).pending,
        decreases n - i,
    {
        let ghost pending = s@.subrange(start as int, i as int);
        proof {
            assert(s@.take(i + 1).drop_last() =~= s@.take(i as int));
            assert(pending.push(s@[i as int]) =~= s@.subrange(start as int, i + 1));
        }
        let c = s.get_char(i);
        if c == ' ' {
            if start < i {
                found.push(String::from_str(s.substring_char(start, i)));
            }
            start = i + 1;
        } else {
            let grown = s.substring_char(start, i + 1);
            if alphabet.contains(grown) {
                found.push(String::from_str(grown));
                start = i + 1;
            }
        }
        i += 1;
    }
    assert(s@.take(n as int) =~= s@);
    if start == n {
        Ok(found)
    } else {
        Err(TokenizeError { fragment: String::from_str(s.substring_char(start, n)) })
    }
}

/// The input without its spaces.
pub open spec fn unspaced(input: Seq<char>) -> Seq<char>
    decreases input.len(),
{
    if input.len() == 0 {
        Seq::empty()
    } else if input.last() == ' ' {
        unspaced(input.drop_last())
    } else {
        unspaced(input.drop_last()).push(input.last())
    }
}

/// The tokens written one after the other.
pub open spec fn joined(tokens: Seq<Seq<char>>) -> Seq<char>
    decreases tokens.len(),
{
    if tokens.len() == 0 {
        Seq::empty()
    } else {
        joined(tokens.drop_last()) + tokens.last()
    }
}

/// A scan loses nothing but spaces and invents nothing: the tokens and the
/// pending fragment, written one after the other, are the input without its
/// spaces. No token is empty, and neither a token nor the fragment holds a
/// space.
pub proof fn lemma_scan_splits(input: Seq<char>, alphabet: Set<Seq<char>>)
    ensures
        joined(scan(input, alphabet).tokens) + scan(input, alphabet).pending == unspaced(input),
        forall|i: int|
            0 <= i < scan(input, alphabet).tokens.len() ==> (#[trigger] scan(
                input,
                alphabet,
            ).tokens[i]).len() > 0 && !scan(input, alphabet).tokens[i].contains(' '),
        !scan(input, alphabet).pending.contains(' '),
    decreases input.len(),
{
    if input.len() > 0 {
        lemma_scan_splits(input.drop_last(), alphabet);
        let before = scan(input.drop_last(), alphabet);
        let after = scan(input, alphabet);
        let c = input.last();
        if c == ' ' {
            if before.pending.len() > 0 {
                assert(after.tokens.drop_last() =~= before.tokens);
                assert(joined(after.tokens) + after.pending =~= joined(before.tokens)
                    + before.pending);
            }
        } else {
            let grown = before.pending.push(c);
            assert forall|k: int| 0 <= k < grown.len() implies grown[k] != ' ' by {
                if k < before.pending.len() {
                    assert(before.pending.contains(grown[k]));
                }
            }
            if alphabet.contains(grown) {
                assert(after.tokens.drop_last() =~= before.tokens);
            }
            assert(joined(after.tokens) + after.pending =~= (joined(before.tokens)
                + before.pending).push(c));
        }
    }
}

/// Tokenizing is a function of the input and the alphabet: two results for
/// the same input and alphabet hold the same tokens, or the same fragment.
pub proof fn lemma_tokenize_deterministic(
    first: Result<Vec<String>, TokenizeError>,
    second: Result<Vec<String>, TokenizeError>,
    input: Seq<char>,
    alphabet: Set<Seq<char>>,
)
    requires
        tokens_view(first) == tokenize(input, alphabet),
        tokens_view(second) == tokenize(input, alphabet),
    ensures
        tokens_view(first) == tokens_view(second),
        first is Ok <==> second is Ok,
{
}

} // verus!
