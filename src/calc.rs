//! Tokenizer for a calculator language: numbers, identifiers (interned in a [`SymTable`]),
//! the operators `+ - * /`, parentheses and `;`, with line numbers.
use vstd::prelude::*;
use crate::relop::spec_is_digit;
use crate::symbols::SymTable;

verus! {

/// Tokens of the calculator language.
#[derive(Clone, Copy, Debug, PartialEq, Eq, Structural)]
pub enum CalcToken {
    Plus,
    Minus,
    Times,
    Div,
    LParen,
    RParen,
    Semi,
    Num(usize),
    Sym(usize),
}

/// Whether `c` has the Unicode Alphabetic property.
pub uninterp spec fn alphabetic(c: char) -> bool;

/// Whether `c` is Alphabetic or Numeric in Unicode's sense.
pub uninterp spec fn alphanumeric(c: char) -> bool;

/// Relies on `char::is_alphabetic`, a property of the character alone.
#[verifier::external_body]
fn is_alphabetic(c: char) -> (r: bool)
    ensures
        r == alphabetic(c),
{
    c.is_alphabetic()
}

/// Relies on `char::is_alphanumeric`, a property of the character alone.
#[verifier::external_body]
fn is_alphanumeric(c: char) -> (r: bool)
    ensures
        r == alphanumeric(c),
{
    c.is_alphanumeric()
}

/// Relies on `String::push`: appends one character.
#[verifier::external_body]
fn push_char(s: &mut String, c: char)
    ensures
        final(s)@ == old(s)@.push(c),
{
    s.push(c)
}

/// The token of a single-character operator or punctuation mark.
pub open spec fn punct_of(c: char) -> Option<CalcToken> {
    if c == '+' {
        Some(CalcToken::Plus)
    } else if c == '-' {
        Some(CalcToken::Minus)
    } else if c == '*' {
        Some(CalcToken::Times)
    } else if c == '/' {
        Some(CalcToken::Div)
    } else if c == '(' {
        Some(CalcToken::LParen)
    } else if c == ')' {
        Some(CalcToken::RParen)
    } else if c == ';' {
        Some(CalcToken::Semi)
    } else {
        None
    }
}

/// End of the run of digits (`digits`) or alphanumerics starting at `p`.
pub open spec fn run_end(cs: Seq<char>, p: int, digits: bool) -> int
    decreases cs.len() - p,
{
    if p < 0 || p >= cs.len() {
        p
    } else if digits && spec_is_digit(cs[p]) || !digits && alphanumeric(cs[p]) {
        run_end(cs, p + 1, digits)
    } else {
        p
    }
}

/// Value of the decimal digits `cs[a..b]`, wrapping around at the width of `usize`.
pub open spec fn digits_value(cs: Seq<char>, a: int, b: int) -> usize
    decreases b - a,
{
    if b <= a {
        0
    } else {
        vstd::wrapping::usize_specs::wrapping_add(
            vstd::wrapping::usize_specs::wrapping_mul(digits_value(cs, a, b - 1), 10),
            (cs[b - 1] as u32 - '0' as u32) as usize,
        )
    }
}

/// The index that interning `id` into `syms` gives.
pub open spec fn intern_index(syms: Seq<Seq<char>>, id: Seq<char>) -> int {
    if syms.contains(id) {
        choose|i: int| 0 <= i < syms.len() && syms[i] == id
    } else {
        syms.len() as int
    }
}

/// The table after interning `id` into `syms`.
pub open spec fn interned(syms: Seq<Seq<char>>, id: Seq<char>) -> Seq<Seq<char>> {
    if syms.contains(id) {
        syms
    } else {
        syms.push(id)
    }
}

/// One call of the tokenizer from character `pos` on line `line` with symbols `syms`: the
/// item produced, then the new position, line and symbols. A number or identifier that runs
/// to the end of input is dropped.
pub open spec fn calc_next(cs: Seq<char>, pos: int, line: int, syms: Seq<Seq<char>>) -> (
    Option<(Result<CalcToken, char>, int)>,
    int,
    int,
    Seq<Seq<char>>,
)
    decreases cs.len() - pos,
{
    if pos < 0 || pos >= cs.len() {
        (None, pos, line, syms)
    } else {
        let c = cs[pos];
        if c == ' ' || c == '\t' {
            calc_next(cs, pos + 1, line, syms)
        } else if c == '\n' {
            calc_next(cs, pos + 1, line + 1, syms)
        } else if spec_is_digit(c) {
            let e = run_end(cs, pos + 1, true);
            if e >= cs.len() {
                (None, e, line, syms)
            } else {
                (Some((Ok(CalcToken::Num(digits_value(cs, pos, e))), line)), e, line, syms)
            }
        } else if punct_of(c) is Some {
            (Some((Ok(punct_of(c)->0), line)), pos + 1, line, syms)
        } else if alphabetic(c) {
            let e = run_end(cs, pos + 1, false);
            let id = cs.subrange(pos, e);
            if e >= cs.len() {
                (None, e, line, syms)
            } else {
                (
                    Some((Ok(CalcToken::Sym(intern_index(syms, id) as usize)), line)),
                    e,
                    line,
                    interned(syms, id),
                )
            }
        } else {
            (Some((Err(c), line)), pos + 1, line, syms)
        }
    }
}

/// A tokenizer over calculator source text that interns identifiers as it goes.
pub struct CalcLexer {
    chars: Vec<char>,
    pos: usize,
    line: usize,
    symbols: SymTable,
}

impl CalcLexer {
    pub closed spec fn text(&self) -> Seq<char> {
        self.chars@
    }

    pub closed spec fn position(&self) -> int {
        self.pos as int
    }

    pub closed spec fn line(&self) -> int {
        self.line as int
    }

    pub closed spec fn symbols(&self) -> Seq<Seq<char>> {
        self.symbols@
    }

    /// Positions and counts stay within bounds that keep every count in a `usize`.
    pub closed spec fn wf(&self) -> bool {
        &&& self.pos <= self.chars@.len() < usize::MAX
        &&& 1 <= self.line <= self.pos + 1
        &&& self.symbols.wf()
        &&& self.symbols@.len() + self.chars@.len() - self.pos < usize::MAX
    }

    /// A tokenizer at the start of `chars`, on line 1, interning into `symbols`.
    pub fn new(chars: Vec<char>, symbols: SymTable) -> (r: Self)
        requires
            symbols.wf(),
            symbols@.len() + chars@.len() < usize::MAX,
        ensures
            r.wf(),
            r.text() == chars@,
            r.position() == 0,
            r.line() == 1,
            r.symbols() == symbols@,
    {
        CalcLexer { chars, pos: 0, line: 1, symbols }
    }

    /// The symbol table built so far.
    pub fn symbol_table(&self) -> (r: &SymTable)
        ensures
            r@ == self.symbols(),
            self.wf() ==> r.wf(),
    {
        &self.symbols
    }

    /// The end of the digit run that starts at `first`, and its value.
    fn scan_number(&self, first: usize) -> (r: (usize, usize))
        requires
            first < self.chars@.len(),
            spec_is_digit(self.chars@[first as int]),
        ensures
            r.0 == run_end(self.chars@, first + 1, true),
            first < r.0 <= self.chars@.len(),
            r.1 == digits_value(self.chars@, first as int, r.0 as int),
    {
        let len = self.chars.len();
        let mut num: usize = (self.chars[first] as u32 - '0' as u32) as usize;
        let mut i = first + 1;
        proof {
            reveal_with_fuel(digits_value, 2);
        }
        while i < len && '0' <= self.chars[i] && self.chars[i] <= '9'
            invariant
                first + 1 <= i <= len,
                len == self.chars@.len(),
                num == digits_value(self.chars@, first as int, i as int),
                run_end(self.chars@, i as int, true) == run_end(self.chars@, first + 1, true),
            decreases len - i,
        {
            let d = (self.chars[i] as u32 - '0' as u32) as usize;
            num = num.wrapping_mul(10).wrapping_add(d);
            i = i + 1;
        }
        (i, num)
    }

    /// The end of the identifier that starts at `first`, and its text.
    fn scan_ident(&self, first: usize) -> (r: (usize, String))
        requires
            first < self.chars@.len(),
        ensures
            r.0 == run_end(self.chars@, first + 1, false),
            first < r.0 <= self.chars@.len(),
            r.1@ == self.chars@.subrange(first as int, r.0 as int),
    {
        let len = self.chars.len();
        let mut ident = String::new();
        push_char(&mut ident, self.chars[first]);
        assert(ident@ =~= self.chars@.subrange(first as int, first + 1));
        let mut i = first + 1;
        while i < len && is_alphanumeric(self.chars[i])
            invariant
                first + 1 <= i <= len,
                len == self.chars@.len(),
                ident@ == self.chars@.subrange(first as int, i as int),
                run_end(self.chars@, i as int, false) == run_end(self.chars@, first + 1, false),
            decreases len - i,
        {
            let ch = self.chars[i];
            push_char(&mut ident, ch);
            assert(ident@ =~= self.chars@.subrange(first as int, i + 1));
            i = i + 1;
        }
        (i, ident)
    }

    /// The next token with its line number, or `None` at the end of input.
    pub fn next(&mut self) -> (r: Option<(Result<CalcToken, char>, usize)>)
        requires
            old(self).wf(),
        ensures
            final(self).wf(),
            final(self).text() == old(self).text(),
            ({
                let (item, pos, line, syms) = calc_next(
                    old(self).text(),
                    old(self).position(),
                    old(self).line(),
                    old(self).symbols(),
                );
                &&& r == match item {
                    Some((t, l)) => Some((t, l as usize)),
                    None => None::<(Result<CalcToken, char>, usize)>,
                }
                &&& final(self).position() == pos
                &&& final(self).line() == line
                &&& final(self).symbols() == syms
            }),
    {
        let ghost target = calc_next(self.chars@, self.pos as int, self.line as int, self.symbols@);
        let len = self.chars.len();
        while self.pos < len
            invariant
                self.wf(),
                len == self.chars@.len(),
                self.chars@ == old(self).chars@,
                calc_next(self.chars@, self.pos as int, self.line as int, self.symbols@) == target,
                target == calc_next(
                    old(self).text(),
                    old(self).position(),
                    old(self).line(),
                    old(self).symbols(),
                ),
            decreases len - self.pos,
        {
            let c = self.chars[self.pos];
            if c == ' ' || c == '\t' {
                self.pos = self.pos + 1;
            } else if c == '\n' {
                self.line = self.line + 1;
                self.pos = self.pos + 1;
            } else if '0' <= c && c <= '9' {
                let (end, num) = self.scan_number(self.pos);
                self.pos = end;
                if end == len {
                    return None;
                }
                return Some((Ok(CalcToken::Num(num)), self.line));
            } else if c == '+' {
                self.pos = self.pos + 1;
                return Some((Ok(CalcToken::Plus), self.line));
            } else if c == '-' {
                self.pos = self.pos + 1;
                return Some((Ok(CalcToken::Minus), self.line));
            } else if c == '*' {
                self.pos = self.pos + 1;
                return Some((Ok(CalcToken::Times), self.line));
            } else if c == '/' {
                self.pos = self.pos + 1;
                return Some((Ok(CalcToken::Div), self.line));
            } else if c == '(' {
                self.pos = self.pos + 1;
                return Some((Ok(CalcToken::LParen), self.line));
            } else if c == ')' {
                self.pos = self.pos + 1;
                return Some((Ok(CalcToken::RParen), self.line));
            } else if c == ';' {
                self.pos = self.pos + 1;
                return Some((Ok(CalcToken::Semi), self.line));
            } else if is_alphabetic(c) {
                let (i, ident) = self.scan_ident(self.pos);
                self.pos = i;
                if i == len {
                    return None;
                }
                let ghost before = self.symbols@;
                let ghost id = ident@;
                let idx = self.symbols.insert(ident);
                proof {
                    if before.contains(id) {
                        let k = intern_index(before, id);
                        assert(before[k] == id);
                    }
                }
                return Some((Ok(CalcToken::Sym(idx)), self.line));
            } else {
                self.pos = self.pos + 1;
                return Some((Err(c), self.line));
            }
        }
        None
    }
}

} // verus!
