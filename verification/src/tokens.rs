//! Token counting under the fixed cl100k byte-pair encoding.

use vstd::prelude::*;

verus! {

/// Number of cl100k tokens of a text: a function of the characters alone.
pub uninterp spec fn cl100k_token_count_of(s: Seq<char>) -> nat;

/// Relies on tiktoken_rs::cl100k_base, CoreBPE::special_tokens and
/// CoreBPE::encode: the tokenizer is built from a fixed table compiled into
/// that crate, what it encodes a text to depends on the text's characters
/// alone, and an empty text encodes to no tokens. `None` when building the
/// tokenizer table fails or when the tokenizer itself reports an error
/// mid-encoding.
#[verifier::external_body]
pub fn count_token(s: &str) -> (r: Option<usize>)
    ensures
        r is Some ==> r->0 == cl100k_token_count_of(s@),
        r is Some && s@.len() == 0 ==> r->0 == 0,
{
    match tiktoken_rs::cl100k_base() {
        Ok(bpe) => match bpe.encode(s, &bpe.special_tokens()) {
            Ok((tokens, _)) => Some(tokens.len()),
            Err(_) => None,
        },
        Err(_) => None,
    }
}

} // verus!
