//! An automaton for comparison operators, identifiers and decimal numbers with optional
//! fraction and exponent, skipping whitespace and C-style comments.
use vstd::prelude::*;
use crate::token::{State, Step};

verus! {

/// Kinds of token recognized by [`RelState`].
#[derive(Clone, Copy, Debug, PartialEq, Eq, Structural)]
pub enum RelToken {
    LessEqual,
    NotEqual,
    Less,
    Equal,
    GreaterEqual,
    Greater,
    Ident,
    Num,
}

/// States of the automaton.
#[derive(Clone, Copy, Debug, PartialEq, Eq, Structural)]
pub enum RelState {
    Start,
    Lt,
    Gt,
    Id,
    FloatLead,
    FloatTrailFirst,
    FloatTrail,
    FloatE,
    FloatExpFirst,
    FloatExp,
    Slash,
    Comment,
    BlockComment,
    BlockCommentEnd,
}

/// Unicode White_Space, as `char::is_whitespace` documents it.
pub open spec fn spec_is_space(c: char) -> bool {
    ||| '\t' <= c <= '\r'
    ||| c == ' '
    ||| c == '\u{85}'
    ||| c == '\u{a0}'
    ||| c == '\u{1680}'
    ||| '\u{2000}' <= c <= '\u{200a}'
    ||| c == '\u{2028}'
    ||| c == '\u{2029}'
    ||| c == '\u{202f}'
    ||| c == '\u{205f}'
    ||| c == '\u{3000}'
}

pub open spec fn spec_is_digit(c: char) -> bool {
    '0' <= c <= '9'
}

pub open spec fn spec_is_letter(c: char) -> bool {
    'a' <= c <= 'z' || 'A' <= c <= 'Z'
}

/// Whether `c` is white space.
pub fn is_space(c: char) -> (r: bool)
    ensures
        r == spec_is_space(c),
{
    ('\t' <= c && c <= '\r') || c == ' ' || c == '\u{85}' || c == '\u{a0}' || c == '\u{1680}'
        || ('\u{2000}' <= c && c <= '\u{200a}') || c == '\u{2028}' || c == '\u{2029}' || c
        == '\u{202f}' || c == '\u{205f}' || c == '\u{3000}'
}

fn is_digit(c: char) -> (r: bool)
    ensures
        r == spec_is_digit(c),
{
    '0' <= c && c <= '9'
}

fn is_letter(c: char) -> (r: bool)
    ensures
        r == spec_is_letter(c),
{
    ('a' <= c && c <= 'z') || ('A' <= c && c <= 'Z')
}

impl State for RelState {
    type Token = RelToken;

    type Error = char;

    open spec fn initial() -> Self {
        RelState::Start
    }

    open spec fn transition(&self, c: char) -> Step<Self> {
        match *self {
            RelState::Start => if spec_is_space(c) {
                Step::Discard
            } else if c == '/' {
                Step::Continue(Some(RelState::Slash))
            } else if c == '<' {
                Step::Continue(Some(RelState::Lt))
            } else if c == '=' {
                Step::Finish(RelToken::Equal, true)
            } else if c == '>' {
                Step::Continue(Some(RelState::Gt))
            } else if spec_is_letter(c) {
                Step::Continue(Some(RelState::Id))
            } else if spec_is_digit(c) {
                Step::Continue(Some(RelState::FloatLead))
            } else {
                Step::Abort(c)
            },
            RelState::Comment => if c == '\n' {
                Step::Discard
            } else {
                Step::Continue(None)
            },
            RelState::Slash => if c == '/' {
                Step::Continue(Some(RelState::Comment))
            } else if c == '*' {
                Step::Continue(Some(RelState::BlockComment))
            } else {
                Step::Abort(c)
            },
            RelState::BlockComment => if c == '*' {
                Step::Continue(Some(RelState::BlockCommentEnd))
            } else {
                Step::Continue(None)
            },
            RelState::BlockCommentEnd => if c == '/' {
                Step::Discard
            } else {
                Step::Continue(Some(RelState::BlockComment))
            },
            RelState::Lt => if c == '=' {
                Step::Finish(RelToken::LessEqual, true)
            } else if c == '>' {
                Step::Finish(RelToken::NotEqual, true)
            } else {
                Step::Finish(RelToken::Less, false)
            },
            RelState::Gt => if c == '=' {
                Step::Finish(RelToken::GreaterEqual, true)
            } else {
                Step::Finish(RelToken::Greater, false)
            },
            RelState::Id => if spec_is_letter(c) || spec_is_digit(c) {
                Step::Continue(None)
            } else {
                Step::Finish(RelToken::Ident, false)
            },
            RelState::FloatLead => if spec_is_digit(c) {
                Step::Continue(None)
            } else if c == '.' {
                Step::Continue(Some(RelState::FloatTrailFirst))
            } else if c == 'E' {
                Step::Continue(Some(RelState::FloatE))
            } else {
                Step::Finish(RelToken::Num, false)
            },
            RelState::FloatTrailFirst => if spec_is_digit(c) {
                Step::Continue(Some(RelState::FloatTrail))
            } else {
                Step::Abort(c)
            },
            RelState::FloatTrail => if spec_is_digit(c) {
                Step::Continue(None)
            } else if c == 'E' {
                Step::Continue(Some(RelState::FloatE))
            } else {
                Step::Finish(RelToken::Num, false)
            },
            RelState::FloatE => if c == '+' || c == '-' {
                Step::Continue(Some(RelState::FloatExpFirst))
            } else if spec_is_digit(c) {
                Step::Continue(Some(RelState::FloatExp))
            } else {
                Step::Abort(c)
            },
            RelState::FloatExpFirst => if spec_is_digit(c) {
                Step::Continue(Some(RelState::FloatExp))
            } else {
                Step::Abort(c)
            },
            RelState::FloatExp => if spec_is_digit(c) {
                Step::Continue(None)
            } else {
                Step::Finish(RelToken::Num, false)
            },
        }
    }

    open spec fn at_end(&self) -> Option<RelToken> {
        match *self {
            RelState::Lt => Some(RelToken::Less),
            RelState::Gt => Some(RelToken::Greater),
            RelState::Id => Some(RelToken::Ident),
            RelState::FloatLead | RelState::FloatTrail | RelState::FloatExp => Some(RelToken::Num),
            _ => None,
        }
    }

    fn start() -> (r: Self) {
        RelState::Start
    }

    fn handle_char(&self, c: char) -> (r: Step<Self>) {
        match *self {
            RelState::Start => if is_space(c) {
                Step::Discard
            } else if c == '/' {
                Step::Continue(Some(RelState::Slash))
            } else if c == '<' {
                Step::Continue(Some(RelState::Lt))
            } else if c == '=' {
                Step::Finish(RelToken::Equal, true)
            } else if c == '>' {
                Step::Continue(Some(RelState::Gt))
            } else if is_letter(c) {
                Step::Continue(Some(RelState::Id))
            } else if is_digit(c) {
                Step::Continue(Some(RelState::FloatLead))
            } else {
                Step::Abort(c)
            },
            RelState::Comment => if c == '\n' {
                Step::Discard
            } else {
                Step::Continue(None)
            },
            RelState::Slash => if c == '/' {
                Step::Continue(Some(RelState::Comment))
            } else if c == '*' {
                Step::Continue(Some(RelState::BlockComment))
            } else {
                Step::Abort(c)
            },
            RelState::BlockComment => if c == '*' {
                Step::Continue(Some(RelState::BlockCommentEnd))
            } else {
                Step::Continue(None)
            },
            RelState::BlockCommentEnd => if c == '/' {
                Step::Discard
            } else {
                Step::Continue(Some(RelState::BlockComment))
            },
            RelState::Lt => if c == '=' {
                Step::Finish(RelToken::LessEqual, true)
            } else if c == '>' {
                Step::Finish(RelToken::NotEqual, true)
            } else {
                Step::Finish(RelToken::Less, false)
            },
            RelState::Gt => if c == '=' {
                Step::Finish(RelToken::GreaterEqual, true)
            } else {
                Step::Finish(RelToken::Greater, false)
            },
            RelState::Id => if is_letter(c) || is_digit(c) {
                Step::Continue(None)
            } else {
                Step::Finish(RelToken::Ident, false)
            },
            RelState::FloatLead => if is_digit(c) {
                Step::Continue(None)
            } else if c == '.' {
                Step::Continue(Some(RelState::FloatTrailFirst))
            } else if c == 'E' {
                Step::Continue(Some(RelState::FloatE))
            } else {
                Step::Finish(RelToken::Num, false)
            },
            RelState::FloatTrailFirst => if is_digit(c) {
                Step::Continue(Some(RelState::FloatTrail))
            } else {
                Step::Abort(c)
            },
            RelState::FloatTrail => if is_digit(c) {
                Step::Continue(None)
            } else if c == 'E' {
                Step::Continue(Some(RelState::FloatE))
            } else {
                Step::Finish(RelToken::Num, false)
            },
            RelState::FloatE => if c == '+' || c == '-' {
                Step::Continue(Some(RelState::FloatExpFirst))
            } else if is_digit(c) {
                Step::Continue(Some(RelState::FloatExp))
            } else {
                Step::Abort(c)
            },
            RelState::FloatExpFirst => if is_digit(c) {
                Step::Continue(Some(RelState::FloatExp))
            } else {
                Step::Abort(c)
            },
            RelState::FloatExp => if is_digit(c) {
                Step::Continue(None)
            } else {
                Step::Finish(RelToken::Num, false)
            },
        }
    }

    fn try_finish(&self) -> (r: Option<RelToken>) {
        match *self {
            RelState::Lt => Some(RelToken::Less),
            RelState::Gt => Some(RelToken::Greater),
            RelState::Id => Some(RelToken::Ident),
            RelState::FloatLead | RelState::FloatTrail | RelState::FloatExp => Some(RelToken::Num),
            _ => None,
        }
    }
}

} // verus!
