//! Framework for building a lexical analyzer by simulating a deterministic finite automaton.
//!
//! A client describes its automaton by implementing [`token::State`]; [`token::lex`] then
//! yields the tokens recognized in a source string, each with its exact text.
use vstd::prelude::*;

pub mod calc;
pub mod regex;
pub mod relop;
pub mod symbols;
pub mod text;
pub mod token;

verus! {

} // verus!
