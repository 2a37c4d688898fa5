//! A one-character-per-token automaton for regular-expression syntax: parentheses, `*`,
//! `|` and any other character, with line breaks skipped.
use vstd::prelude::*;
use crate::token::{State, Step};

verus! {

/// Kinds of token in regular-expression syntax.
#[derive(Clone, Copy, Debug, PartialEq, Eq, Structural)]
pub enum RegexToken {
    OpenParen,
    CloseParen,
    Star,
    Pipe,
    NonSpecial,
}

/// The single state of the regular-expression automaton.
#[derive(Clone, Copy, Debug, PartialEq, Eq, Structural)]
pub struct RegexState;

/// The token that a single character of regular-expression syntax makes, if any.
pub open spec fn regex_token_of(c: char) -> Option<RegexToken> {
    if c == '(' {
        Some(RegexToken::OpenParen)
    } else if c == ')' {
        Some(RegexToken::CloseParen)
    } else if c == '*' {
        Some(RegexToken::Star)
    } else if c == '|' {
        Some(RegexToken::Pipe)
    } else if c == '\n' {
        None
    } else {
        Some(RegexToken::NonSpecial)
    }
}

impl State for RegexState {
    type Token = RegexToken;

    type Error = ();

    open spec fn initial() -> Self {
        RegexState
    }

    open spec fn transition(&self, c: char) -> Step<Self> {
        match regex_token_of(c) {
            Some(t) => Step::Finish(t, true),
            None => Step::Discard,
        }
    }

    open spec fn at_end(&self) -> Option<RegexToken> {
        None
    }

    fn start() -> (r: Self) {
        RegexState
    }

    fn handle_char(&self, c: char) -> (r: Step<Self>) {
        if c == '(' {
            Step::Finish(RegexToken::OpenParen, true)
        } else if c == ')' {
            Step::Finish(RegexToken::CloseParen, true)
        } else if c == '*' {
            Step::Finish(RegexToken::Star, true)
        } else if c == '|' {
            Step::Finish(RegexToken::Pipe, true)
        } else if c == '\n' {
            Step::Discard
        } else {
            Step::Finish(RegexToken::NonSpecial, true)
        }
    }

    fn try_finish(&self) -> (r: Option<RegexToken>) {
        None
    }
}

} // verus!
