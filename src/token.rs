use vstd::prelude::*;
use vstd::utf8::*;
use vstd::slice::spec_slice_len;
use vstd::string::StringSliceAdditionalSpecFns;
use crate::text::{char_width, first_char, lemma_encode_concat, split_chars};

verus! {

/// One item of a token stream: the token or error, with its exact text.
pub type TokenResult<'a, T, E> = (Result<T, E>, &'a str);

/// Actions to take when processing a character.
pub enum Step<S: State> {
    /// Ignore input up to and including the current character; the automaton restarts.
    Discard,
    /// Consume the character, staying in the same state (`None`) or moving to a new one.
    Continue(Option<S>),
    /// Finish this token; the flag says whether the current character belongs to it.
    Finish(S::Token, bool),
    /// Unrecoverable error: the stream ends after reporting it.
    Abort(S::Error),
}

/// Internal state of a deterministic finite automaton describing a language.
pub trait State: Sized {
    /// Tokens to produce from a character stream.
    type Token;
    /// Value reported when an unrecoverable error is encountered.
    type Error;

    /// The start state.
    spec fn initial() -> Self;

    /// The transition taken from this state on character `c`.
    spec fn transition(&self, c: char) -> Step<Self>;

    /// The token that a partial lexeme ending in this state makes at end of input, if any.
    spec fn at_end(&self) -> Option<Self::Token>;

    /// Produce the start state.
    fn start() -> (r: Self)
        ensures
            r == Self::initial(),
    ;

    /// Transition between automaton states, based on current state and character.
    fn handle_char(&self, c: char) -> (r: Step<Self>)
        ensures
            r == self.transition(c),
    ;

    /// Attempt to finish a token when there is no additional input to process.
    fn try_finish(&self) -> (r: Option<Self::Token>)
        ensures
            r == self.at_end(),
    ;
}

/// The outcome of one pull, scanning from character `pos` in state `q` with the current
/// lexeme starting at `start`: the item produced (if any), the lexeme's character range
/// `[start, end)`, and whether the stream is over afterwards. The next pull begins at `end`.
pub open spec fn scan<S: State>(src: Seq<char>, start: int, pos: int, q: S) -> (
    Option<Result<S::Token, S::Error>>,
    int,
    int,
    bool,
)
    decreases src.len() - pos,
{
    if pos < 0 || pos >= src.len() {
        match q.at_end() {
            Some(t) => (Some(Ok(t)), start, pos, true),
            None => (None, start, pos, true),
        }
    } else {
        match q.transition(src[pos]) {
            Step::Discard => scan(src, pos + 1, pos + 1, S::initial()),
            Step::Continue(None) => scan(src, start, pos + 1, q),
            Step::Continue(Some(n)) => scan(src, start, pos + 1, n),
            Step::Finish(t, consume) => {
                let end = if consume {
                    pos + 1
                } else {
                    pos
                };
                (Some(Ok(t)), start, end, false)
            },
            Step::Abort(e) => (Some(Err(e)), start, pos + 1, true),
        }
    }
}

/// The outcome of a pull that begins at character `pos` in the start state.
pub open spec fn pull<S: State>(src: Seq<char>, pos: int) -> (
    Option<Result<S::Token, S::Error>>,
    int,
    int,
    bool,
) {
    scan(src, pos, pos, S::initial())
}

/// Bounds of a scan: the lexeme lies inside `[start, len)` and ends at or after `pos`; text
/// skipped before the lexeme ends on a character that the automaton discarded; a scan that
/// yields nothing has reached the end of input and ended the stream.
pub proof fn lemma_scan_bounds<S: State>(src: Seq<char>, start: int, pos: int, q: S)
    requires
        0 <= start <= pos <= src.len(),
    ensures
        ({
            let (item, ls, le, over) = scan(src, start, pos, q);
            &&& start <= ls <= le <= src.len()
            &&& pos <= le
            &&& ls > start ==> exists|d: S| #[trigger] d.transition(src[ls - 1]) is Discard
            &&& item is None ==> over && le == src.len()
            &&& !over ==> item is Some
        }),
    decreases src.len() - pos,
{
    if pos < src.len() {
        match q.transition(src[pos]) {
            Step::Discard => {
                lemma_scan_bounds(src, pos + 1, pos + 1, S::initial());
                let ls = scan(src, pos + 1, pos + 1, S::initial()).1;
                if ls == pos + 1 {
                    assert(q.transition(src[ls - 1]) is Discard);
                }
            },
            Step::Continue(None) => lemma_scan_bounds(src, start, pos + 1, q),
            Step::Continue(Some(n)) => lemma_scan_bounds(src, start, pos + 1, n),
            _ => {},
        }
    }
}

/// Coverage: a pull from position `p` yields the lexeme `[ls, le)` with `p <= ls <= le`, and
/// the next pull starts at `le`; so lexemes never overlap and appear in order. Any text
/// between `p` and `ls` was dropped by a `Discard` step, which ends on the character just
/// before the lexeme. A pull that yields nothing ends the stream at the end of input.
pub proof fn lemma_pull_covers<S: State>(src: Seq<char>, p: int)
    requires
        0 <= p <= src.len(),
    ensures
        ({
            let (item, ls, le, over) = pull::<S>(src, p);
            &&& p <= ls <= le <= src.len()
            &&& ls > p ==> exists|d: S| #[trigger] d.transition(src[ls - 1]) is Discard
            &&& item is None ==> over && le == src.len()
            &&& !over ==> item is Some
        }),
{
    lemma_scan_bounds(src, p, p, S::initial());
}

/// Maximal munch: while the automaton answers `Continue`, the character is taken into the
/// lexeme; the lexeme then ends after it, never before.
pub proof fn lemma_maximal_munch<S: State>(src: Seq<char>, start: int, pos: int, q: S)
    requires
        0 <= start <= pos < src.len(),
        q.transition(src[pos]) is Continue,
    ensures
        scan(src, start, pos, q).2 >= pos + 1,
        scan(src, start, pos, q) == scan(
            src,
            start,
            pos + 1,
            match q.transition(src[pos]) {
                Step::Continue(Some(n)) => n,
                _ => q,
            },
        ),
{
    match q.transition(src[pos]) {
        Step::Continue(None) => lemma_scan_bounds(src, start, pos + 1, q),
        Step::Continue(Some(n)) => lemma_scan_bounds(src, start, pos + 1, n),
        _ => {},
    }
}

/// The items of at most `n` pulls from position `p`, each with its lexeme text, stopping
/// early once the stream is over.
pub open spec fn run<S: State>(src: Seq<char>, p: int, n: nat) -> Seq<
    (Result<S::Token, S::Error>, Seq<char>),
>
    decreases n,
{
    if n == 0 {
        Seq::empty()
    } else {
        let (item, ls, le, over) = pull::<S>(src, p);
        match item {
            None => Seq::empty(),
            Some(res) => seq![(res, src.subrange(ls, le))] + if over {
                Seq::empty()
            } else {
                run::<S>(src, le, (n - 1) as nat)
            },
        }
    }
}

/// Purity: lexing the same text with fresh lexers yields the same items, for any number of
/// pulls; what a pull yields depends on the text and the position alone.
pub proof fn lemma_lexing_is_pure<S: State>(a: Seq<char>, b: Seq<char>, n: nat)
    requires
        a == b,
    ensures
        run::<S>(a, 0, n) == run::<S>(b, 0, n),
{
}

/// Obtain a stream of tokens from a string.
///
/// The logic for decoding tokens is given by the implementation of [`State`] on `S`.
pub fn lex<'a, S: State>(src: &'a str) -> (r: Lexer<'a, S>)
    ensures
        r.wf(),
        r.source() == src@,
        r.position() == 0,
        !r.is_done(),
{
    let bytes = src.as_bytes();
    let _ = bytes.len();
    proof {
        broadcast use vstd::slice::axiom_spec_len;

        assert(bytes@.len() == spec_slice_len(bytes));
        assert(src@.subrange(0, src@.len() as int) =~= src@);
        assert(src@.subrange(0, 0) =~= Seq::<char>::empty());
    }
    Lexer {
        rest: src,
        lexeme: src,
        width: 0,
        state: S::start(),
        done: false,
        src: Ghost(src@),
        start: Ghost(0),
        pos: Ghost(0),
    }
}

/// A stream of tokens recognized in a string. Obtain one via [`lex`].
pub struct Lexer<'a, S: State> {
    /// The input not consumed yet, starting at the lookahead character.
    rest: &'a str,
    /// The input from the start of the current lexeme on.
    lexeme: &'a str,
    /// Number of bytes of the current lexeme consumed so far.
    width: usize,
    state: S,
    done: bool,
    src: Ghost<Seq<char>>,
    start: Ghost<int>,
    pos: Ghost<int>,
}

impl<'a, S: State> Lexer<'a, S> {
    /// The whole source text.
    pub closed spec fn source(&self) -> Seq<char> {
        self.src@
    }

    /// Character index at which the next pull begins.
    pub closed spec fn position(&self) -> int {
        self.pos@
    }

    /// Whether the stream is over.
    pub closed spec fn is_done(&self) -> bool {
        self.done
    }

    /// The cursors agree with the source text.
    closed spec fn aligned(&self) -> bool {
        let src = self.src@;
        &&& 0 <= self.start@ <= self.pos@ <= src.len()
        &&& self.rest@ == src.subrange(self.pos@, src.len() as int)
        &&& self.lexeme@ == src.subrange(self.start@, src.len() as int)
        &&& self.width == encode_utf8(src.subrange(self.start@, self.pos@)).len()
        &&& encode_utf8(src).len() <= usize::MAX
    }

    /// Well-formed between pulls: a live stream sits at a lexeme boundary in the start state.
    pub closed spec fn wf(&self) -> bool {
        &&& self.aligned()
        &&& !self.done ==> self.start@ == self.pos@ && self.state == S::initial()
    }

    /// The lookahead character, if any input is left.
    fn current_char(&self) -> (r: Option<char>)
        requires
            self.aligned(),
        ensures
            self.pos@ == self.src@.len() ==> r is None,
            self.pos@ < self.src@.len() ==> r == Some(self.src@[self.pos@]),
    {
        first_char(self.rest)
    }

    /// Consume the lookahead character `c`.
    fn advance(&mut self, c: char)
        requires
            old(self).aligned(),
            old(self).pos@ < old(self).src@.len(),
            c == old(self).src@[old(self).pos@],
        ensures
            final(self).aligned(),
            final(self).pos@ == old(self).pos@ + 1,
            final(self).start == old(self).start,
            final(self).src == old(self).src,
            final(self).state == old(self).state,
            final(self).done == old(self).done,
    {
        let ghost src = self.src@;
        let ghost start = self.start@;
        let ghost pos = self.pos@;
        let w = char_width(c);
        proof {
            let one = src.subrange(pos, pos + 1);
            assert(one.drop_first() =~= Seq::<char>::empty());
            reveal_with_fuel(encode_utf8, 2);
            assert(encode_utf8(one) =~= encode_scalar(c as u32));
            assert(self.rest@.subrange(0, 1) =~= one);
            assert(src.subrange(start, pos + 1) =~= src.subrange(start, pos) + one);
            lemma_encode_concat(src.subrange(start, pos), one);
            assert(src =~= src.subrange(0, start) + src.subrange(start, pos + 1) + src.subrange(
                pos + 1,
                src.len() as int,
            ));
            lemma_encode_concat(
                src.subrange(0, start) + src.subrange(start, pos + 1),
                src.subrange(pos + 1, src.len() as int),
            );
            lemma_encode_concat(src.subrange(0, start), src.subrange(start, pos + 1));
        }
        let (_, rest) = split_chars(self.rest, w, Ghost(1));
        self.rest = rest;
        self.width = self.width + w;
        self.pos = Ghost(pos + 1);
        proof {
            assert(self.rest@ =~= src.subrange(pos + 1, src.len() as int));
        }
    }

    /// Drop the current lexeme together with the lookahead character `c`.
    fn discard_lexeme(&mut self, c: char)
        requires
            old(self).aligned(),
            old(self).pos@ < old(self).src@.len(),
            c == old(self).src@[old(self).pos@],
        ensures
            final(self).aligned(),
            final(self).pos@ == old(self).pos@ + 1,
            final(self).start@ == final(self).pos@,
            final(self).src == old(self).src,
            final(self).state == S::initial(),
            final(self).done == old(self).done,
    {
        self.state = S::start();
        self.advance(c);
        self.lexeme = self.rest;
        self.width = 0;
        self.start = Ghost(self.pos@);
        proof {
            assert(self.src@.subrange(self.pos@, self.pos@) =~= Seq::<char>::empty());
        }
    }

    /// End the current lexeme, with or without the lookahead character, and pair its text
    /// with `token`.
    fn finish_token(&mut self, token: Result<S::Token, S::Error>, consume: bool) -> (r:
        TokenResult<'a, S::Token, S::Error>)
        requires
            old(self).aligned(),
            consume ==> old(self).pos@ < old(self).src@.len(),
        ensures
            final(self).aligned(),
            final(self).pos@ == old(self).pos@ + if consume {
                1int
            } else {
                0int
            },
            final(self).start@ == final(self).pos@,
            final(self).src == old(self).src,
            final(self).state == S::initial(),
            final(self).done == old(self).done,
            r.0 == token,
            r.1@ == old(self).src@.subrange(old(self).start@, final(self).pos@),
    {
        self.state = S::start();
        if consume {
            match self.current_char() {
                Some(c) => self.advance(c),
                None => {},
            }
        }
        let ghost src = self.src@;
        let ghost start = self.start@;
        let ghost pos = self.pos@;
        proof {
            assert(self.lexeme@.subrange(0, pos - start) =~= src.subrange(start, pos));
        }
        let (text, _) = split_chars(self.lexeme, self.width, Ghost(pos - start));
        self.lexeme = self.rest;
        self.width = 0;
        self.start = Ghost(pos);
        proof {
            assert(src.subrange(pos, pos) =~= Seq::<char>::empty());
        }
        (token, text)
    }

    /// Produce the next token with its exact text, or `None` once the stream is over.
    pub fn next(&mut self) -> (r: Option<TokenResult<'a, S::Token, S::Error>>)
        requires
            old(self).wf(),
        ensures
            final(self).wf(),
            final(self).source() == old(self).source(),
            old(self).is_done() ==> r is None && final(self).is_done() && final(self).position()
                == old(self).position(),
            !old(self).is_done() ==> ({
                let (item, start, end, over) = pull::<S>(old(self).source(), old(self).position());
                &&& final(self).is_done() == over
                &&& final(self).position() == end
                &&& match item {
                    None => r is None,
                    Some(res) => r matches Some(out) && out.0 == res && out.1@ == old(self).source().subrange(
                        start,
                        end,
                    ),
                }
            }),
    {
        if self.done {
            return None;
        }
        let ghost target = pull::<S>(self.src@, self.pos@);
        loop
            invariant
                self.aligned(),
                !self.done,
                !old(self).done,
                self.src == old(self).src,
                target == pull::<S>(old(self).source(), old(self).position()),
                scan(self.src@, self.start@, self.pos@, self.state) == target,
            decreases self.src@.len() - self.pos@,
        {
            match self.current_char() {
                None => {
                    self.done = true;
                    match self.state.try_finish() {
                        Some(t) => {
                            return Some(self.finish_token(Ok(t), false));
                        },
                        None => {
                            return None;
                        },
                    }
                },
                Some(c) => match self.state.handle_char(c) {
                    Step::Discard => self.discard_lexeme(c),
                    Step::Continue(None) => self.advance(c),
                    Step::Continue(Some(next)) => {
                        self.state = next;
                        self.advance(c);
                    },
                    Step::Finish(t, consume) => {
                        return Some(self.finish_token(Ok(t), consume));
                    },
                    Step::Abort(e) => {
                        self.done = true;
                        return Some(self.finish_token(Err(e), true));
                    },
                },
            }
        }
    }
}

} // verus!
