//! Token counting over the fixed tokenizer vocabulary.
use vstd::prelude::*;

verus! {

/// The token sequence that the fixed tokenizer vocabulary assigns to a text,
/// where the encoding succeeds.  The encoding takes pages to state, so it is
/// only named here; the contracts of the context builder speak of counts
/// through this name.
pub uninterp spec fn tokens_of(s: Seq<char>) -> Seq<u32>;

/// Whether the tokenizer's encoding of a text succeeds.  Splitting the text
/// is done by a backtracking pattern engine with a fixed step limit, so on
/// some texts the split — and with it the encoding — fails; like the token
/// sequence itself, which texts those are is a deterministic function of the
/// text that only the name states.
pub uninterp spec fn encoding_ok(s: Seq<char>) -> bool;

/// Relies on `tiktoken_rs::cl100k_base_singleton`, `CoreBPE::special_tokens`
/// and `CoreBPE::encode`: byte-pair encoding over a vocabulary embedded in
/// that crate, deterministic with a fixed backtracking limit, so both the
/// outcome and the token sequence are functions of the text alone.  `encode`
/// returns its error when splitting the text exceeds that limit; on an empty
/// text the split finds no piece, nothing can exceed the limit, and no token
/// is produced.  The vocabulary is compiled into the crate and always parses,
/// so the singleton initialization cannot fail, and the special-token pattern
/// is an alternation of literals, which the engine matches without
/// backtracking.
#[verifier::external_body]
pub fn encode(input: &str) -> (r: Option<Vec<u32>>)
    ensures
        r.is_some() == encoding_ok(input@),
        r matches Some(v) ==> v@ == tokens_of(input@),
        input@.len() == 0 ==> r.is_some(),
        r matches Some(v) ==> (input@.len() == 0 ==> v@.len() == 0),
{
    let bpe = tiktoken_rs::cl100k_base_singleton();
    match bpe.encode(input, &bpe.special_tokens()) {
        Ok((tokens, _)) => Some(tokens),
        Err(_) => None,
    }
}

/// The number of tokens of a text whose encoding succeeds.
pub open spec fn token_count(s: Seq<char>) -> nat {
    tokens_of(s).len()
}

/// Count the tokens of a text: the length of its encoding, or nothing where
/// the encoding fails.  Deterministic: two calls on equal texts return the
/// same answer, and an empty text counts zero tokens.
pub fn count(input: &str) -> (r: Option<usize>)
    ensures
        r.is_some() == encoding_ok(input@),
        r matches Some(n) ==> n == token_count(input@),
        input@.len() == 0 ==> r == Some(0usize),
{
    match encode(input) {
        Some(tokens) => Some(tokens.len()),
        None => None,
    }
}

} // verus!
