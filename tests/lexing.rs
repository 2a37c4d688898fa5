use dragon::calc::{CalcLexer, CalcToken};
use dragon::regex::{RegexState, RegexToken};
use dragon::relop::{is_space, RelState, RelToken};
use dragon::symbols::SymTable;
use dragon::token::{lex, Lexer, State, Step};

fn collect<'a, S: State>(mut lexer: Lexer<'a, S>) -> Vec<(Result<S::Token, S::Error>, &'a str)> {
    let mut out = Vec::new();
    while let Some(item) = lexer.next() {
        out.push(item);
    }
    out
}

#[test]
fn numbers_with_fraction_and_exponent() {
    let mut iter = lex::<RelState>("1 2 3.0 4.44444E44 5E6 7.50 01234.5");
    assert_eq!(iter.next().unwrap().1, "1");
    assert_eq!(iter.next().unwrap().1, "2");
    assert_eq!(iter.next().unwrap().1, "3.0");
    assert_eq!(iter.next().unwrap().1, "4.44444E44");
    assert_eq!(iter.next().unwrap().1, "5E6");
    assert_eq!(iter.next().unwrap().1, "7.50");
    assert_eq!(iter.next().unwrap().1, "01234.5");
    assert!(iter.next().is_none());
}

#[test]
fn lookahead_less_equal_then_ident() {
    let items = collect(lex::<RelState>("<=x"));
    assert_eq!(items, vec![(Ok(RelToken::LessEqual), "<="), (Ok(RelToken::Ident), "x")]);
}

#[test]
fn lookahead_alternatives() {
    let items = collect(lex::<RelState>("< <> <x >= >y"));
    assert_eq!(
        items,
        vec![
            (Ok(RelToken::Less), "<"),
            (Ok(RelToken::NotEqual), "<>"),
            (Ok(RelToken::Less), "<"),
            (Ok(RelToken::Ident), "x"),
            (Ok(RelToken::GreaterEqual), ">="),
            (Ok(RelToken::Greater), ">"),
            (Ok(RelToken::Ident), "y"),
        ]
    );
}

#[test]
fn end_of_input_completes_number() {
    let items = collect(lex::<RelState>("123"));
    assert_eq!(items, vec![(Ok(RelToken::Num), "123")]);
}

#[test]
fn end_of_input_drops_partial_exponent() {
    let items = collect(lex::<RelState>("x 12E"));
    assert_eq!(items, vec![(Ok(RelToken::Ident), "x")]);
    assert!(collect(lex::<RelState>("12E")).is_empty());
}

#[test]
fn abort_latches() {
    let mut iter = lex::<RelState>("12@ abc 34");
    assert_eq!(iter.next(), Some((Ok(RelToken::Num), "12")));
    assert_eq!(iter.next(), Some((Err('@'), "@")));
    assert_eq!(iter.next(), None);
    assert_eq!(iter.next(), None);
}

#[test]
fn abort_at_end() {
    let items = collect(lex::<RelState>("12@"));
    assert_eq!(items, vec![(Ok(RelToken::Num), "12"), (Err('@'), "@")]);
}

#[test]
fn maximal_munch_digits_and_idents() {
    let items = collect(lex::<RelState>("abc123 9876=x1"));
    assert_eq!(
        items,
        vec![
            (Ok(RelToken::Ident), "abc123"),
            (Ok(RelToken::Num), "9876"),
            (Ok(RelToken::Equal), "="),
            (Ok(RelToken::Ident), "x1"),
        ]
    );
}

#[test]
fn comments_are_discarded() {
    let items = collect(lex::<RelState>("a // line\nb /* block * / */ c"));
    assert_eq!(
        items,
        vec![(Ok(RelToken::Ident), "a"), (Ok(RelToken::Ident), "b"), (Ok(RelToken::Ident), "c")]
    );
}

#[test]
fn unterminated_block_comment_is_dropped() {
    assert!(collect(lex::<RelState>("/* open")).is_empty());
}

#[test]
fn multi_byte_text_is_sliced_on_boundaries() {
    let items = collect(lex::<RelState>("x\u{3000}y\u{a0}<\u{2003}1"));
    assert_eq!(
        items,
        vec![
            (Ok(RelToken::Ident), "x"),
            (Ok(RelToken::Ident), "y"),
            (Ok(RelToken::Less), "<"),
            (Ok(RelToken::Num), "1"),
        ]
    );
    let items = collect(lex::<RegexState>("é(ß)*|🦀"));
    assert_eq!(
        items,
        vec![
            (Ok(RegexToken::NonSpecial), "é"),
            (Ok(RegexToken::OpenParen), "("),
            (Ok(RegexToken::NonSpecial), "ß"),
            (Ok(RegexToken::CloseParen), ")"),
            (Ok(RegexToken::Star), "*"),
            (Ok(RegexToken::Pipe), "|"),
            (Ok(RegexToken::NonSpecial), "🦀"),
        ]
    );
}

#[test]
fn multi_byte_error_character() {
    let items = collect(lex::<RelState>("ab→c"));
    assert_eq!(items, vec![(Ok(RelToken::Ident), "ab"), (Err('→'), "→")]);
}

#[test]
fn lexing_twice_gives_same_items() {
    let src = "a<=b /* c */ 3.5E+2 <> q";
    let first = collect(lex::<RelState>(src));
    let second = collect(lex::<RelState>(src));
    assert_eq!(first, second);
    assert_eq!(first.len(), 6);
}

#[test]
fn coverage_of_text() {
    let src = "  ab  12.5  <";
    let items = collect(lex::<RelState>(src));
    let joined: String = items.iter().map(|(_, t)| *t).collect();
    assert_eq!(joined, "ab12.5<");
    let mut offset = 0;
    for (_, text) in &items {
        let at = src[offset..].find(text).unwrap() + offset;
        assert!(src[offset..at].chars().all(|c| c.is_whitespace()));
        offset = at + text.len();
    }
    assert_eq!(offset, src.len());
}

#[test]
fn regex_tokens_skip_newlines() {
    let items = collect(lex::<RegexState>("a\n|b"));
    assert_eq!(
        items,
        vec![
            (Ok(RegexToken::NonSpecial), "a"),
            (Ok(RegexToken::Pipe), "|"),
            (Ok(RegexToken::NonSpecial), "b"),
        ]
    );
}

#[test]
fn empty_input_yields_nothing() {
    assert!(collect(lex::<RelState>("")).is_empty());
    assert!(collect(lex::<RelState>("   \n\t")).is_empty());
}

#[test]
fn space_matches_std_whitespace() {
    for c in ['\t', '\n', '\u{b}', '\u{c}', '\r', ' ', '\u{85}', '\u{a0}', '\u{1680}', '\u{2000}',
        '\u{200a}', '\u{2028}', '\u{2029}', '\u{202f}', '\u{205f}', '\u{3000}', 'a', '0', '\u{200b}',
        '\u{180e}', '\u{feff}', '_']
    {
        assert_eq!(is_space(c), c.is_whitespace(), "{:?}", c);
    }
}

#[test]
fn automaton_decisions() {
    assert!(matches!(RelState::start().handle_char('<'), Step::Continue(Some(RelState::Lt))));
    assert!(matches!(RelState::Lt.handle_char('x'), Step::Finish(RelToken::Less, false)));
    assert!(matches!(RelState::FloatE.handle_char('x'), Step::Abort('x')));
    assert_eq!(RelState::FloatE.try_finish(), None);
    assert_eq!(RelState::FloatExp.try_finish(), Some(RelToken::Num));
    assert_eq!(RegexState.try_finish(), None);
}

#[test]
fn symbol_table_interns_in_order() {
    let mut t = SymTable::new();
    assert_eq!(t.insert("div".to_string()), 0);
    assert_eq!(t.insert("mod".to_string()), 1);
    assert_eq!(t.insert("x".to_string()), 2);
    assert_eq!(t.insert("mod".to_string()), 1);
    assert_eq!(t.lookup("x"), Some(2));
    assert_eq!(t.lookup("y"), None);
    assert_eq!(t.get(1), Some("mod".to_string()));
    assert_eq!(t.get(3), None);
}

fn calc_tokens(src: &str) -> (Vec<(Result<CalcToken, char>, usize)>, SymTable) {
    let mut symbols = SymTable::new();
    symbols.insert("div".to_string());
    symbols.insert("mod".to_string());
    let mut lexer = CalcLexer::new(src.chars().collect(), symbols);
    let mut out = Vec::new();
    while let Some(item) = lexer.next() {
        out.push(item);
    }
    let table = lexer.symbol_table();
    let mut copy = SymTable::new();
    let mut i = 0;
    while let Some(s) = table.get(i) {
        copy.insert(s);
        i += 1;
    }
    (out, copy)
}

#[test]
fn calculator_tokens_and_lines() {
    let (items, table) = calc_tokens("12 + x1 *\n(y div 3);\n x1 mod 7 ;");
    assert_eq!(
        items,
        vec![
            (Ok(CalcToken::Num(12)), 1),
            (Ok(CalcToken::Plus), 1),
            (Ok(CalcToken::Sym(2)), 1),
            (Ok(CalcToken::Times), 1),
            (Ok(CalcToken::LParen), 2),
            (Ok(CalcToken::Sym(3)), 2),
            (Ok(CalcToken::Sym(0)), 2),
            (Ok(CalcToken::Num(3)), 2),
            (Ok(CalcToken::RParen), 2),
            (Ok(CalcToken::Semi), 2),
            (Ok(CalcToken::Sym(2)), 3),
            (Ok(CalcToken::Sym(1)), 3),
            (Ok(CalcToken::Num(7)), 3),
            (Ok(CalcToken::Semi), 3),
        ]
    );
    assert_eq!(table.len(), 4);
    assert_eq!(table.get(3), Some("y".to_string()));
}

#[test]
fn calculator_drops_trailing_number_and_reports_errors() {
    let (items, _) = calc_tokens("1 - 2");
    assert_eq!(items, vec![(Ok(CalcToken::Num(1)), 1), (Ok(CalcToken::Minus), 1)]);
    let (items, table) = calc_tokens("a # b");
    assert_eq!(items, vec![(Ok(CalcToken::Sym(2)), 1), (Err('#'), 1)]);
    assert_eq!(table.len(), 3);
    let (items, _) = calc_tokens("ä2/é;");
    assert_eq!(items, vec![(Ok(CalcToken::Sym(2)), 1), (Ok(CalcToken::Div), 1), (Ok(CalcToken::Sym(3)), 1), (Ok(CalcToken::Semi), 1)]);
}
