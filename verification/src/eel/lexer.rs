use vstd::prelude::*;
use crate::eel::chars::{
    alphabetic, alphanumeric, is_alphabetic, is_alphanumeric, is_ascii_digit, is_digit,
    is_whitespace, spec_is_whitespace, str_chars, collect_chars,
};

verus! {

/// A lexical token of EEL code. Numbers keep their source text; its value is
/// what `f64::from_str` makes of it, or 0 where that fails.
#[derive(Debug, Clone, PartialEq)]
pub enum Token {
    Number(String),
    Ident(String),
    Plus,
    Minus,
    Star,
    Slash,
    Percent,
    Caret,
    Eq,
    PlusEq,
    MinusEq,
    StarEq,
    SlashEq,
    PercentEq,
    CaretEq,
    Lt,
    Gt,
    Amp,
    Pipe,
    Bang,
    Comma,
    Semicolon,
    LParen,
    RParen,
    Eof,
}

/// The mathematical model of a token: the text of a number or identifier, or a
/// punctuation token (a `Token` without data).
pub enum Lexeme {
    Number(Seq<char>),
    Ident(Seq<char>),
    Punct(Token),
}

impl View for Token {
    type V = Lexeme;

    open spec fn view(&self) -> Lexeme {
        match self {
            Token::Number(s) => Lexeme::Number(s@),
            Token::Ident(s) => Lexeme::Ident(s@),
            _ => Lexeme::Punct(*self),
        }
    }
}

/// The models of a sequence of tokens.
pub open spec fn lexemes(ts: Seq<Token>) -> Seq<Lexeme> {
    ts.map_values(|t: Token| t@)
}

/// `s[i] == c`, false out of range.
pub open spec fn has(s: Seq<char>, i: int, c: char) -> bool {
    0 <= i < s.len() && s[i] == c
}

/// First position at or after `p` that is not whitespace.
pub open spec fn skip_spaces(s: Seq<char>, p: int) -> int
    decreases s.len() - p,
{
    if 0 <= p < s.len() && spec_is_whitespace(s[p]) {
        skip_spaces(s, p + 1)
    } else {
        p
    }
}

/// First position at or after `p` holding a newline, or the end.
pub open spec fn skip_line(s: Seq<char>, p: int) -> int
    decreases s.len() - p,
{
    if 0 <= p < s.len() && s[p] != '\n' {
        skip_line(s, p + 1)
    } else {
        p
    }
}

/// Position after the `*/` that closes a block comment whose text starts at
/// `p`; an unterminated comment runs to the end of the text.
pub open spec fn skip_block(s: Seq<char>, p: int) -> int
    decreases s.len() - p,
{
    if p + 1 < s.len() {
        if s[p] == '*' && s[p + 1] == '/' {
            p + 2
        } else {
            skip_block(s, p + 1)
        }
    } else {
        s.len() as int
    }
}

pub proof fn lemma_skip_spaces(s: Seq<char>, p: int)
    requires
        0 <= p <= s.len(),
    ensures
        p <= skip_spaces(s, p) <= s.len(),
    decreases s.len() - p,
{
    if 0 <= p < s.len() && spec_is_whitespace(s[p]) {
        lemma_skip_spaces(s, p + 1);
    }
}

pub proof fn lemma_skip_line(s: Seq<char>, p: int)
    requires
        0 <= p <= s.len(),
    ensures
        p <= skip_line(s, p) <= s.len(),
    decreases s.len() - p,
{
    if 0 <= p < s.len() && s[p] != '\n' {
        lemma_skip_line(s, p + 1);
    }
}

pub proof fn lemma_skip_block(s: Seq<char>, p: int)
    requires
        0 <= p <= s.len(),
    ensures
        p <= skip_block(s, p) <= s.len(),
    decreases s.len() - p,
{
    if p + 1 < s.len() && !(s[p] == '*' && s[p + 1] == '/') {
        lemma_skip_block(s, p + 1);
    }
}

/// Skips whitespace, `//` line comments and `/* */` block comments.
pub open spec fn skip_trivia(s: Seq<char>, p: int) -> int
    decreases s.len() - p,
{
    if 0 <= p <= s.len() {
        let q = skip_spaces(s, p);
        proof {
            lemma_skip_spaces(s, p);
        }
        if has(s, q, '/') && has(s, q + 1, '/') {
            proof {
                lemma_skip_line(s, q + 1);
            }
            skip_trivia(s, skip_line(s, q + 1))
        } else if has(s, q, '/') && has(s, q + 1, '*') {
            proof {
                lemma_skip_block(s, q + 2);
            }
            skip_trivia(s, skip_block(s, q + 2))
        } else {
            q
        }
    } else {
        p
    }
}

pub proof fn lemma_skip_trivia(s: Seq<char>, p: int)
    requires
        0 <= p <= s.len(),
    ensures
        p <= skip_trivia(s, p) <= s.len(),
    decreases s.len() - p,
{
    let q = skip_spaces(s, p);
    lemma_skip_spaces(s, p);
    if has(s, q, '/') && has(s, q + 1, '/') {
        lemma_skip_line(s, q + 1);
        lemma_skip_trivia(s, skip_line(s, q + 1));
    } else if has(s, q, '/') && has(s, q + 1, '*') {
        lemma_skip_block(s, q + 2);
        lemma_skip_trivia(s, skip_block(s, q + 2));
    }
}

/// End of the run of digits and dots starting at `p`.
pub open spec fn scan_number_body(s: Seq<char>, p: int) -> int
    decreases s.len() - p,
{
    if 0 <= p < s.len() && (is_digit(s[p]) || s[p] == '.') {
        scan_number_body(s, p + 1)
    } else {
        p
    }
}

/// End of the run of digits starting at `p`.
pub open spec fn scan_digits(s: Seq<char>, p: int) -> int
    decreases s.len() - p,
{
    if 0 <= p < s.len() && is_digit(s[p]) {
        scan_digits(s, p + 1)
    } else {
        p
    }
}

/// End of the run of identifier chars (alphanumeric or `_`) starting at `p`.
pub open spec fn scan_ident(s: Seq<char>, p: int) -> int
    decreases s.len() - p,
{
    if 0 <= p < s.len() && (alphanumeric(s[p]) || s[p] == '_') {
        scan_ident(s, p + 1)
    } else {
        p
    }
}

/// End of the number literal starting at `p`: digits and dots, then an
/// optional exponent `e`/`E`, optional sign and digits.
pub open spec fn number_end(s: Seq<char>, p: int) -> int {
    let a = scan_number_body(s, p);
    if has(s, a, 'e') || has(s, a, 'E') {
        let b = if has(s, a + 1, '+') || has(s, a + 1, '-') {
            a + 2
        } else {
            a + 1
        };
        scan_digits(s, b)
    } else {
        a
    }
}

pub proof fn lemma_scan_number_body(s: Seq<char>, p: int)
    requires
        0 <= p <= s.len(),
    ensures
        p <= scan_number_body(s, p) <= s.len(),
        p < s.len() && (is_digit(s[p]) || s[p] == '.') ==> p < scan_number_body(s, p),
    decreases s.len() - p,
{
    if 0 <= p < s.len() && (is_digit(s[p]) || s[p] == '.') {
        lemma_scan_number_body(s, p + 1);
    }
}

pub proof fn lemma_scan_digits(s: Seq<char>, p: int)
    requires
        0 <= p <= s.len(),
    ensures
        p <= scan_digits(s, p) <= s.len(),
    decreases s.len() - p,
{
    if 0 <= p < s.len() && is_digit(s[p]) {
        lemma_scan_digits(s, p + 1);
    }
}

pub proof fn lemma_scan_ident(s: Seq<char>, p: int)
    requires
        0 <= p <= s.len(),
    ensures
        p <= scan_ident(s, p) <= s.len(),
    decreases s.len() - p,
{
    if 0 <= p < s.len() && (alphanumeric(s[p]) || s[p] == '_') {
        lemma_scan_ident(s, p + 1);
    }
}

pub proof fn lemma_number_end(s: Seq<char>, p: int)
    requires
        0 <= p < s.len(),
        is_digit(s[p]) || s[p] == '.',
    ensures
        p < number_end(s, p) <= s.len(),
{
    lemma_scan_number_body(s, p);
    let a = scan_number_body(s, p);
    if has(s, a, 'e') || has(s, a, 'E') {
        if has(s, a + 1, '+') || has(s, a + 1, '-') {
            lemma_scan_digits(s, a + 2);
        } else {
            lemma_scan_digits(s, a + 1);
        }
    }
}

/// A one-char operator, or its `op=` form when `=` follows.
pub open spec fn op_token(s: Seq<char>, p: int, plain: Token, with_eq: Token) -> (Option<Lexeme>, int) {
    if has(s, p + 1, '=') {
        (Some(Lexeme::Punct(with_eq)), p + 2)
    } else {
        (Some(Lexeme::Punct(plain)), p + 1)
    }
}

/// Whether a number literal starts at `p`: a digit, or a dot before a digit.
pub open spec fn starts_number(s: Seq<char>, p: int) -> bool {
    is_digit(s[p]) || (s[p] == '.' && 0 <= p + 1 < s.len() && is_digit(s[p + 1]))
}

/// The token that starts at `p` (`None` for a char that starts no token) and
/// the position after it.
pub open spec fn lex_one(s: Seq<char>, p: int) -> (Option<Lexeme>, int) {
    let c = s[p];
    if starts_number(s, p) {
        let e = number_end(s, p);
        (Some(Lexeme::Number(s.subrange(p, e))), e)
    } else if alphabetic(c) || c == '_' {
        let e = scan_ident(s, p + 1);
        (Some(Lexeme::Ident(s.subrange(p, e))), e)
    } else if c == '+' {
        op_token(s, p, Token::Plus, Token::PlusEq)
    } else if c == '-' {
        op_token(s, p, Token::Minus, Token::MinusEq)
    } else if c == '*' {
        op_token(s, p, Token::Star, Token::StarEq)
    } else if c == '/' {
        op_token(s, p, Token::Slash, Token::SlashEq)
    } else if c == '%' {
        op_token(s, p, Token::Percent, Token::PercentEq)
    } else if c == '^' {
        op_token(s, p, Token::Caret, Token::CaretEq)
    } else if c == '=' {
        (Some(Lexeme::Punct(Token::Eq)), p + 1)
    } else if c == '<' {
        (Some(Lexeme::Punct(Token::Lt)), p + 1)
    } else if c == '>' {
        (Some(Lexeme::Punct(Token::Gt)), p + 1)
    } else if c == '&' {
        (Some(Lexeme::Punct(Token::Amp)), p + 1)
    } else if c == '|' {
        (Some(Lexeme::Punct(Token::Pipe)), p + 1)
    } else if c == '!' {
        (Some(Lexeme::Punct(Token::Bang)), p + 1)
    } else if c == ',' {
        (Some(Lexeme::Punct(Token::Comma)), p + 1)
    } else if c == ';' {
        (Some(Lexeme::Punct(Token::Semicolon)), p + 1)
    } else if c == '(' {
        (Some(Lexeme::Punct(Token::LParen)), p + 1)
    } else if c == ')' {
        (Some(Lexeme::Punct(Token::RParen)), p + 1)
    } else {
        (None, p + 1)
    }
}

pub proof fn lemma_lex_one(s: Seq<char>, p: int)
    requires
        0 <= p < s.len(),
    ensures
        p < lex_one(s, p).1 <= s.len(),
{
    if starts_number(s, p) {
        lemma_number_end(s, p);
    } else if alphabetic(s[p]) || s[p] == '_' {
        lemma_scan_ident(s, p + 1);
    }
}

/// The tokens of `s` from position `p` on, ending with one `Eof`.
pub open spec fn lex(s: Seq<char>, p: int) -> Seq<Lexeme>
    decreases s.len() - p,
{
    if 0 <= p <= s.len() {
        let q = skip_trivia(s, p);
        proof {
            lemma_skip_trivia(s, p);
        }
        if q >= s.len() {
            seq![Lexeme::Punct(Token::Eof)]
        } else {
            let (t, e) = lex_one(s, q);
            proof {
                lemma_lex_one(s, q);
            }
            match t {
                Some(t) => seq![t] + lex(s, e),
                None => lex(s, e),
            }
        }
    } else {
        seq![Lexeme::Punct(Token::Eof)]
    }
}

/// A char that may continue an identifier.
pub open spec fn ident_char(c: char) -> bool {
    alphanumeric(c) || c == '_'
}

/// A char that may appear in a number literal.
pub open spec fn number_char(c: char) -> bool {
    is_digit(c) || c == '.' || c == 'e' || c == 'E' || c == '+' || c == '-'
}

/// The text of an identifier token: a letter or `_`, then identifier chars.
pub open spec fn valid_ident(t: Seq<char>) -> bool {
    &&& t.len() > 0
    &&& (alphabetic(t[0]) || t[0] == '_')
    &&& forall|i: int| 1 <= i < t.len() ==> ident_char(#[trigger] t[i])
}

/// The text of a number token: a digit or `.` first, number chars after.
pub open spec fn valid_number(t: Seq<char>) -> bool {
    &&& t.len() > 0
    &&& (is_digit(t[0]) || t[0] == '.')
    &&& forall|i: int| 0 <= i < t.len() ==> number_char(#[trigger] t[i])
}

/// A token whose text has the form its kind requires.
pub open spec fn valid_lexeme(l: Lexeme) -> bool {
    match l {
        Lexeme::Number(t) => valid_number(t),
        Lexeme::Ident(t) => valid_ident(t),
        Lexeme::Punct(t) => t !is Number && t !is Ident,
    }
}

/// A token stream that ends with its only `Eof`, in which every token is
/// well formed.
pub open spec fn well_terminated(ts: Seq<Lexeme>) -> bool {
    &&& ts.len() >= 1
    &&& ts.last() == Lexeme::Punct(Token::Eof)
    &&& forall|i: int| 0 <= i < ts.len() - 1 ==> ts[i] != Lexeme::Punct(Token::Eof)
    &&& forall|i: int| 0 <= i < ts.len() ==> valid_lexeme(#[trigger] ts[i])
}

proof fn lemma_scan_ident_chars(s: Seq<char>, p: int)
    requires
        0 <= p <= s.len(),
    ensures
        forall|i: int| p <= i < scan_ident(s, p) ==> ident_char(#[trigger] s[i]),
    decreases s.len() - p,
{
    if 0 <= p < s.len() && (alphanumeric(s[p]) || s[p] == '_') {
        lemma_scan_ident_chars(s, p + 1);
    }
}

proof fn lemma_scan_number_body_chars(s: Seq<char>, p: int)
    requires
        0 <= p <= s.len(),
    ensures
        forall|i: int| p <= i < scan_number_body(s, p) ==> number_char(#[trigger] s[i]),
    decreases s.len() - p,
{
    if 0 <= p < s.len() && (is_digit(s[p]) || s[p] == '.') {
        lemma_scan_number_body_chars(s, p + 1);
    }
}

proof fn lemma_scan_digits_chars(s: Seq<char>, p: int)
    requires
        0 <= p <= s.len(),
    ensures
        forall|i: int| p <= i < scan_digits(s, p) ==> number_char(#[trigger] s[i]),
    decreases s.len() - p,
{
    if 0 <= p < s.len() && is_digit(s[p]) {
        lemma_scan_digits_chars(s, p + 1);
    }
}

proof fn lemma_number_end_chars(s: Seq<char>, p: int)
    requires
        0 <= p < s.len(),
        is_digit(s[p]) || s[p] == '.',
    ensures
        forall|i: int| p <= i < number_end(s, p) ==> number_char(#[trigger] s[i]),
{
    lemma_scan_number_body(s, p);
    lemma_scan_number_body_chars(s, p);
    let a = scan_number_body(s, p);
    if has(s, a, 'e') || has(s, a, 'E') {
        let b = if has(s, a + 1, '+') || has(s, a + 1, '-') {
            a + 2
        } else {
            a + 1
        };
        lemma_scan_digits_chars(s, b);
        lemma_scan_digits(s, b);
        assert forall|i: int| p <= i < number_end(s, p) implies number_char(#[trigger] s[i]) by {
            if i >= b {
            } else if i >= a {
            }
        }
    }
}

proof fn lemma_lex_one_valid(s: Seq<char>, p: int)
    requires
        0 <= p < s.len(),
    ensures
        lex_one(s, p).0 != Some(Lexeme::Punct(Token::Eof)),
        lex_one(s, p).0 matches Some(l) ==> valid_lexeme(l),
{
    if starts_number(s, p) {
        lemma_number_end(s, p);
        lemma_number_end_chars(s, p);
        let t = s.subrange(p, number_end(s, p));
        assert forall|i: int| 0 <= i < t.len() implies number_char(#[trigger] t[i]) by {
            assert(t[i] == s[p + i]);
        }
    } else if alphabetic(s[p]) || s[p] == '_' {
        lemma_scan_ident(s, p + 1);
        lemma_scan_ident_chars(s, p + 1);
        let t = s.subrange(p, scan_ident(s, p + 1));
        assert forall|i: int| 1 <= i < t.len() implies ident_char(#[trigger] t[i]) by {
            assert(t[i] == s[p + i]);
        }
    }
}

/// Every char of `s[from..to]` is an ASCII digit.
pub open spec fn all_digits(s: Seq<char>, from: int, to: int) -> bool {
    forall|i: int| from <= i < to ==> is_digit(#[trigger] s[i])
}

proof fn lemma_number_body_of_digits(s: Seq<char>, p: int, end: int)
    requires
        0 <= p <= end < s.len(),
        all_digits(s, p, end),
        !is_digit(s[end]),
        s[end] != '.',
    ensures
        scan_number_body(s, p) == end,
    decreases end - p,
{
    if p < end {
        lemma_number_body_of_digits(s, p + 1, end);
    }
}

proof fn lemma_digits_to_end(s: Seq<char>, p: int)
    requires
        0 <= p <= s.len(),
        all_digits(s, p, s.len() as int),
    ensures
        scan_digits(s, p) == s.len(),
    decreases s.len() - p,
{
    if p < s.len() {
        lemma_digits_to_end(s, p + 1);
    }
}

/// Digits, an exponent mark `e` or `E`, a sign `+` or `-` and digits form a
/// single number token holding the whole text.
pub proof fn law_signed_exponent_is_one_number(d: Seq<char>, e: char, sign: char, x: Seq<char>)
    requires
        d.len() > 0,
        x.len() > 0,
        all_digits(d, 0, d.len() as int),
        all_digits(x, 0, x.len() as int),
        e == 'e' || e == 'E',
        sign == '+' || sign == '-',
    ensures
        lex(d + seq![e, sign] + x, 0) == seq![
            Lexeme::Number(d + seq![e, sign] + x),
            Lexeme::Punct(Token::Eof),
        ],
{
    let s = d + seq![e, sign] + x;
    let n = d.len() as int;
    assert(s[0] == d[0]);
    assert(all_digits(s, 0, n)) by {
        assert forall|i: int| 0 <= i < n implies is_digit(#[trigger] s[i]) by {
            assert(s[i] == d[i]);
            assert(is_digit(d[i]));
        }
    }
    assert(s[n] == e && s[n + 1] == sign);
    assert(all_digits(s, n + 2, s.len() as int)) by {
        assert forall|i: int| n + 2 <= i < s.len() implies is_digit(#[trigger] s[i]) by {
            assert(s[i] == x[i - n - 2]);
            assert(is_digit(x[i - n - 2]));
        }
    }
    assert(skip_spaces(s, 0) == 0);
    assert(skip_trivia(s, 0) == 0);
    lemma_number_body_of_digits(s, 0, n);
    lemma_digits_to_end(s, n + 2);
    assert(number_end(s, 0) == s.len());
    assert(lex_one(s, 0) == (Some(Lexeme::Number(s.subrange(0, s.len() as int))), s.len() as int));
    lemma_skip_trivia(s, s.len() as int);
    assert(skip_spaces(s, s.len() as int) == s.len());
    assert(lex(s, s.len() as int) == seq![Lexeme::Punct(Token::Eof)]);
    assert(s.subrange(0, s.len() as int) =~= s);
    assert(lex(s, 0) =~= seq![Lexeme::Number(s), Lexeme::Punct(Token::Eof)]);
}

/// How many `;` the text holds from `p` on when all of it is whitespace,
/// comments and `;`; `None` when anything else appears.
pub open spec fn blank_semicolons(s: Seq<char>, p: int) -> Option<nat>
    decreases s.len() - p,
{
    if 0 <= p <= s.len() {
        let q = skip_trivia(s, p);
        proof {
            lemma_skip_trivia(s, p);
        }
        if q >= s.len() {
            Some(0nat)
        } else if s[q] == ';' {
            match blank_semicolons(s, q + 1) {
                Some(k) => Some(k + 1),
                None => None,
            }
        } else {
            None
        }
    } else {
        None
    }
}

/// `k` semicolons and the closing `Eof`.
pub open spec fn semicolons_then_eof(k: nat) -> Seq<Lexeme> {
    Seq::new(k, |i: int| Lexeme::Punct(Token::Semicolon)).push(Lexeme::Punct(Token::Eof))
}

/// A text of whitespace, comments and `k` semicolons tokenizes to those
/// semicolons and `Eof`.
pub proof fn lemma_lex_blank(s: Seq<char>, p: int)
    requires
        0 <= p <= s.len(),
        blank_semicolons(s, p) is Some,
    ensures
        lex(s, p) == semicolons_then_eof(blank_semicolons(s, p)->0),
    decreases s.len() - p,
{
    let q = skip_trivia(s, p);
    lemma_skip_trivia(s, p);
    if q >= s.len() {
        assert(lex(s, p) =~= semicolons_then_eof(0));
    } else {
        assert(s[q] == ';');
        assert(!alphabetic(s[q]));
        assert(lex_one(s, q) == (Some(Lexeme::Punct(Token::Semicolon)), q + 1));
        lemma_lex_blank(s, q + 1);
        let k = blank_semicolons(s, q + 1)->0;
        assert(lex(s, p) == seq![Lexeme::Punct(Token::Semicolon)] + lex(s, q + 1));
        assert(seq![Lexeme::Punct(Token::Semicolon)] + semicolons_then_eof(k) =~= semicolons_then_eof(k + 1));
    }
}

/// Tokenizing from any position yields a stream that ends with its only
/// `Eof`, in which identifiers are a letter or `_` followed by identifier
/// chars, and numbers start with a digit or `.` and hold only number chars.
pub proof fn law_tokens_well_terminated(s: Seq<char>, p: int)
    requires
        0 <= p <= s.len(),
    ensures
        well_terminated(lex(s, p)),
    decreases s.len() - p,
{
    let q = skip_trivia(s, p);
    lemma_skip_trivia(s, p);
    if q < s.len() {
        let (t, e) = lex_one(s, q);
        lemma_lex_one(s, q);
        lemma_lex_one_valid(s, q);
        law_tokens_well_terminated(s, e);
        let rest = lex(s, e);
        match t {
            Some(t) => {
                let all = seq![t] + rest;
                assert(lex(s, p) == all);
                assert forall|i: int| 0 <= i < all.len() - 1 implies all[i] != Lexeme::Punct(Token::Eof) by {
                    if i > 0 {
                        assert(all[i] == rest[i - 1]);
                    }
                }
                assert forall|i: int| 0 <= i < all.len() implies valid_lexeme(#[trigger] all[i]) by {
                    if i > 0 {
                        assert(all[i] == rest[i - 1]);
                    }
                }
            },
            None => {},
        }
    } else {
        assert(valid_lexeme(Lexeme::Punct(Token::Eof)));
    }
}

/// The tokens of a whole source text.
pub open spec fn tokens_of(src: Seq<char>) -> Seq<Lexeme> {
    lex(src, 0)
}

/// A cursor over the chars of an EEL source text.
pub struct Lexer {
    input: Vec<char>,
    pos: usize,
}

impl Lexer {
    /// The chars being tokenized.
    pub closed spec fn text(&self) -> Seq<char> {
        self.input@
    }

    /// The position of the next char to read.
    pub closed spec fn position(&self) -> int {
        self.pos as int
    }

    /// The cursor lies within the text.
    pub closed spec fn wf(&self) -> bool {
        self.pos <= self.input.len()
    }

    pub fn new(src: &str) -> (l: Self)
        ensures
            l.wf(),
            l.text() == src@,
            l.position() == 0,
    {
        Self { input: str_chars(src), pos: 0 }
    }

    fn peek(&self) -> (r: Option<char>)
        ensures
            r == (if self.pos < self.input@.len() {
                Some(self.input@[self.pos as int])
            } else {
                None::<char>
            }),
    {
        if self.pos < self.input.len() {
            Some(self.input[self.pos])
        } else {
            None
        }
    }

    fn peek2(&self) -> (r: Option<char>)
        ensures
            r == (if self.pos + 1 < self.input@.len() {
                Some(self.input@[self.pos + 1])
            } else {
                None::<char>
            }),
    {
        if self.pos < self.input.len() && self.pos + 1 < self.input.len() {
            Some(self.input[self.pos + 1])
        } else {
            None
        }
    }

    fn advance(&mut self) -> (r: Option<char>)
        requires
            old(self).pos < old(self).input.len(),
        ensures
            final(self).input@ == old(self).input@,
            final(self).pos == old(self).pos + 1,
            r == Some(old(self).input@[old(self).pos as int]),
    {
        let ch = self.input[self.pos];
        self.pos += 1;
        Some(ch)
    }

    fn skip_whitespace_and_comments(&mut self)
        requires
            old(self).wf(),
        ensures
            final(self).wf(),
            final(self).input@ == old(self).input@,
            final(self).pos == skip_trivia(old(self).input@, old(self).pos as int),
    {
        let ghost s = self.input@;
        let ghost target = skip_trivia(s, self.pos as int);
        loop
            invariant
                self.wf(),
                self.input@ == s,
                skip_trivia(s, self.pos as int) == target,
            ensures
                self.wf(),
                self.input@ == s,
                self.pos == target,
            decreases s.len() - self.pos,
        {
            let ghost p0 = self.pos as int;
            while self.pos < self.input.len() && is_whitespace(self.input[self.pos])
                invariant
                    self.wf(),
                    self.input@ == s,
                    p0 <= self.pos,
                    skip_spaces(s, p0) == skip_spaces(s, self.pos as int),
                decreases s.len() - self.pos,
            {
                self.advance();
            }
            let q = self.pos;
            proof {
                lemma_skip_spaces(s, p0);
            }
            assert(skip_spaces(s, q as int) == q);
            if self.peek() == Some('/') && self.peek2() == Some('/') {
                assert(has(s, q as int, '/') && has(s, q + 1, '/'));
                assert(skip_trivia(s, p0) == skip_trivia(s, skip_line(s, q + 1)));
                self.pos += 1;
                let ghost q1 = self.pos as int;
                while self.pos < self.input.len() && self.input[self.pos] != '\n'
                    invariant
                        self.wf(),
                        self.input@ == s,
                        q1 <= self.pos,
                        skip_line(s, q1) == skip_line(s, self.pos as int),
                    decreases s.len() - self.pos,
                {
                    self.advance();
                }
                continue;
            }
            if self.peek() == Some('/') && self.peek2() == Some('*') {
                assert(has(s, q as int, '/') && has(s, q + 1, '*'));
                assert(skip_trivia(s, p0) == skip_trivia(s, skip_block(s, q + 2)));
                self.pos += 2;
                let ghost q2 = self.pos as int;
                let mut closed = false;
                while self.input.len() - self.pos >= 2
                    invariant_except_break
                        skip_block(s, q2) == skip_block(s, self.pos as int),
                        !closed,
                    invariant
                        self.wf(),
                        self.input@ == s,
                        q2 <= self.pos,
                    ensures
                        closed ==> skip_block(s, q2) == self.pos,
                        !closed ==> skip_block(s, q2) == s.len(),
                    decreases s.len() - self.pos,
                {
                    if self.input[self.pos] == '*' && self.input[self.pos + 1] == '/' {
                        self.pos += 2;
                        closed = true;
                        break;
                    }
                    self.pos += 1;
                }
                if !closed {
                    self.pos = self.input.len();
                }
                continue;
            }
            break;
        }
    }

    /// Splits the rest of the text into tokens, ending with `Eof`.
    pub fn tokenize(&mut self) -> (tokens: Vec<Token>)
        requires
            old(self).wf(),
        ensures
            final(self).wf(),
            final(self).text() == old(self).text(),
            final(self).position() == old(self).text().len(),
            lexemes(tokens@) == lex(old(self).text(), old(self).position()),
    {
        let ghost s = self.input@;
        let ghost start = self.pos as int;
        let mut tokens: Vec<Token> = Vec::new();
        loop
            invariant_except_break
                lexemes(tokens@) + lex(s, self.pos as int) == lex(s, start),
            invariant
                self.wf(),
                self.input@ == s,
                0 <= start <= s.len(),
            ensures
                self.wf(),
                self.input@ == s,
                self.pos == s.len(),
                lexemes(tokens@) == lex(s, start),
            decreases s.len() - self.pos,
        {
            let ghost p0 = self.pos as int;
            self.skip_whitespace_and_comments();
            proof {
                lemma_skip_trivia(s, p0);
            }
            match self.peek() {
                None => {
                    assert(lex(s, p0) == seq![Lexeme::Punct(Token::Eof)]);
                    let ghost before = tokens@;
                    tokens.push(Token::Eof);
                    assert(lexemes(tokens@) =~= lexemes(before) + seq![Lexeme::Punct(Token::Eof)]);
                    break;
                }
                Some(c) => {
                    let ghost q = self.pos as int;
                    proof {
                        lemma_lex_one(s, q);
                    }
                    let ghost before = tokens@;
                    let t = self.next_token(c);
                    match t {
                        Some(tok) => {
                            tokens.push(tok);
                            assert(lexemes(tokens@) =~= lexemes(before) + seq![tok@]);
                        },
                        None => {},
                    }
                }
            }
        }
        tokens
    }

    fn op_or_assign(&mut self, plain: Token, with_eq: Token) -> (r: Token)
        requires
            old(self).wf(),
            old(self).pos >= 1,
            plain !is Number && plain !is Ident,
            with_eq !is Number && with_eq !is Ident,
        ensures
            final(self).wf(),
            final(self).input@ == old(self).input@,
            (Some(r@), final(self).pos as int) == op_token(
                old(self).input@,
                old(self).pos - 1,
                plain,
                with_eq,
            ),
    {
        if self.peek() == Some('=') {
            self.advance();
            with_eq
        } else {
            plain
        }
    }

    fn next_token(&mut self, c: char) -> (r: Option<Token>)
        requires
            old(self).wf(),
            old(self).pos < old(self).input.len(),
            c == old(self).input@[old(self).pos as int],
        ensures
            final(self).wf(),
            final(self).input@ == old(self).input@,
            (match r {
                Some(t) => Some(t@),
                None => None::<Lexeme>,
            }, final(self).pos as int) == lex_one(old(self).input@, old(self).pos as int),
    {
        let d2 = match self.peek2() {
            Some(d) => is_ascii_digit(d),
            None => false,
        };
        if is_ascii_digit(c) || (c == '.' && d2) {
            return Some(self.read_number());
        }
        if is_alphabetic(c) || c == '_' {
            return Some(self.read_ident());
        }
        self.advance();
        let tok = if c == '+' {
            self.op_or_assign(Token::Plus, Token::PlusEq)
        } else if c == '-' {
            self.op_or_assign(Token::Minus, Token::MinusEq)
        } else if c == '*' {
            self.op_or_assign(Token::Star, Token::StarEq)
        } else if c == '/' {
            self.op_or_assign(Token::Slash, Token::SlashEq)
        } else if c == '%' {
            self.op_or_assign(Token::Percent, Token::PercentEq)
        } else if c == '^' {
            self.op_or_assign(Token::Caret, Token::CaretEq)
        } else if c == '=' {
            Token::Eq
        } else if c == '<' {
            Token::Lt
        } else if c == '>' {
            Token::Gt
        } else if c == '&' {
            Token::Amp
        } else if c == '|' {
            Token::Pipe
        } else if c == '!' {
            Token::Bang
        } else if c == ',' {
            Token::Comma
        } else if c == ';' {
            Token::Semicolon
        } else if c == '(' {
            Token::LParen
        } else if c == ')' {
            Token::RParen
        } else {
            return None;
        };
        Some(tok)
    }

    fn read_number(&mut self) -> (r: Token)
        requires
            old(self).wf(),
            old(self).pos < old(self).input.len(),
            starts_number(old(self).input@, old(self).pos as int),
        ensures
            final(self).wf(),
            final(self).input@ == old(self).input@,
            final(self).pos == number_end(old(self).input@, old(self).pos as int),
            r@ == Lexeme::Number(old(self).input@.subrange(old(self).pos as int, final(self).pos as int)),
    {
        let ghost s = self.input@;
        let start = self.pos;
        while self.pos < self.input.len() && (is_ascii_digit(self.input[self.pos]) || self.input[self.pos] == '.')
            invariant
                self.wf(),
                self.input@ == s,
                start <= self.pos,
                scan_number_body(s, start as int) == scan_number_body(s, self.pos as int),
            decreases s.len() - self.pos,
        {
            self.advance();
        }
        if self.peek() == Some('e') || self.peek() == Some('E') {
            self.advance();
            if self.peek() == Some('+') || self.peek() == Some('-') {
                self.advance();
            }
            let ghost b = self.pos as int;
            while self.pos < self.input.len() && is_ascii_digit(self.input[self.pos])
                invariant
                    self.wf(),
                    self.input@ == s,
                    b <= self.pos,
                    scan_digits(s, b) == scan_digits(s, self.pos as int),
                decreases s.len() - self.pos,
            {
                self.advance();
            }
        }
        Token::Number(collect_chars(&self.input, start, self.pos))
    }

    fn read_ident(&mut self) -> (r: Token)
        requires
            old(self).wf(),
            old(self).pos < old(self).input.len(),
            alphanumeric(old(self).input@[old(self).pos as int])
                || old(self).input@[old(self).pos as int] == '_',
        ensures
            final(self).wf(),
            final(self).input@ == old(self).input@,
            final(self).pos == scan_ident(old(self).input@, old(self).pos + 1),
            r@ == Lexeme::Ident(old(self).input@.subrange(old(self).pos as int, final(self).pos as int)),
    {
        let ghost s = self.input@;
        let start = self.pos;
        while self.pos < self.input.len() && (is_alphanumeric(self.input[self.pos]) || self.input[self.pos] == '_')
            invariant
                self.wf(),
                self.input@ == s,
                start <= self.pos,
                self.pos > start ==> scan_ident(s, start + 1) == scan_ident(s, self.pos as int),
                self.pos == start ==> alphanumeric(s[start as int]) || s[start as int] == '_',
            decreases s.len() - self.pos,
        {
            self.advance();
        }
        Token::Ident(collect_chars(&self.input, start, self.pos))
    }
}

} // verus!
