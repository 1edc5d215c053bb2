//! How the document grammar runs over the tokens of a source, one token
//! after the other.
use vstd::prelude::*;
use crate::lexer::grammar::Token;
use crate::parser::block::{finish, run_from, step, ParserView};

verus! {

/// Running over tokens from index `i + 1` on is running over the tokens
/// without the first from index `i` on.
pub proof fn lemma_run_shift(
    file: Seq<char>,
    src: Seq<u8>,
    s: ParserView,
    first: Token,
    rest: Seq<Token>,
    i: int,
)
    requires
        0 <= i,
    ensures
        run_from(file, src, s, seq![first] + rest, i + 1) == run_from(file, src, s, rest, i),
    decreases rest.len() - i,
{
    let all = seq![first] + rest;
    reveal_with_fuel(run_from, 2);
    if i < rest.len() {
        assert(all[i + 1] == rest[i]);
        match step(file, src, s, rest[i]) {
            Err(e) => {},
            Ok(next) => {
                lemma_run_shift(file, src, next, first, rest, i + 1);
            },
        }
    }
}

/// Running over tokens is taking the first and running over the rest.
pub proof fn lemma_run_first(
    file: Seq<char>,
    src: Seq<u8>,
    s: ParserView,
    first: Token,
    rest: Seq<Token>,
)
    ensures
        run_from(file, src, s, seq![first] + rest, 0) == match step(file, src, s, first) {
            Err(e) => Err(e),
            Ok(next) => run_from(file, src, next, rest, 0),
        },
{
    let all = seq![first] + rest;
    reveal_with_fuel(run_from, 2);
    assert(all[0] == first);
    match step(file, src, s, first) {
        Err(e) => {},
        Ok(next) => {
            lemma_run_shift(file, src, next, first, rest, 0);
        },
    }
}

/// Running over no tokens is finishing.
pub proof fn lemma_run_none(file: Seq<char>, src: Seq<u8>, s: ParserView)
    ensures
        run_from(file, src, s, Seq::<Token>::empty(), 0) == finish(file, s),
{
    reveal_with_fuel(run_from, 2);
}

} // verus!
