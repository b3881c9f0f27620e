//! The scanner: source text to tokens, or every lexical error in the text.

use vstd::prelude::*;
use vstd::std_specs::iter::IteratorSpec;
use vstd::string::*;
use vstd::utf8::{encode_scalar, encode_utf8, is_scalar};
use crate::token::{Identifier, Literal, Operator, Token, TokenType, TokenTypeView};

verus! {

/// A lexical error.
#[derive(Debug, Clone, Copy, PartialEq, Eq, Structural)]
pub enum ScannerError {
    /// A character that starts no token: the character, its line and its
    /// byte offset in the source.
    UnknownToken(char, usize, usize),
    /// A string with no closing quote: the line and byte offset of its
    /// opening quote.
    UnterminatedString(usize, usize),
}

/// A token as the lexical rules describe it.
pub struct TokenView {
    pub kind: TokenTypeView,
    pub line: int,
    pub offset: int,
}

/// The description of a scanned token.
pub open spec fn token_view(t: Token<TokenType>) -> TokenView {
    TokenView { kind: t.token_type@, line: t.line as int, offset: t.start_index_in_source as int }
}

/// The descriptions of a sequence of scanned tokens.
pub open spec fn tokens_view(ts: Seq<Token<TokenType>>) -> Seq<TokenView> {
    ts.map_values(|t: Token<TokenType>| token_view(t))
}

/// The number of bytes that `c` takes in UTF-8.
pub open spec fn utf8_width(c: char) -> int {
    let v = c as u32;
    if v <= 0x7F {
        1
    } else if v <= 0x7FF {
        2
    } else if v <= 0xFFFF {
        3
    } else {
        4
    }
}

/// The number of bytes that the first `i` characters of `s` take in UTF-8:
/// the byte offset of character `i`.
pub open spec fn byte_offset(s: Seq<char>, i: int) -> int
    decreases i,
{
    if i <= 0 {
        0
    } else {
        byte_offset(s, i - 1) + utf8_width(s[i - 1])
    }
}

/// The number of bytes that `s` takes in UTF-8.
pub open spec fn utf8_len(s: Seq<char>) -> int {
    byte_offset(s, s.len() as int)
}

pub open spec fn is_digit(c: char) -> bool {
    '0' <= c && c <= '9'
}

pub open spec fn is_alpha(c: char) -> bool {
    ('a' <= c && c <= 'z') || ('A' <= c && c <= 'Z') || c == '_'
}

pub open spec fn is_alphanumeric(c: char) -> bool {
    is_alpha(c) || is_digit(c)
}

/// The first position at or after `i` that does not hold a digit.
pub open spec fn digits_end(s: Seq<char>, i: int) -> int
    decreases s.len() - i,
{
    if 0 <= i < s.len() && is_digit(s[i]) {
        digits_end(s, i + 1)
    } else {
        i
    }
}

/// The first position at or after `i` that holds no letter, digit or `_`.
pub open spec fn word_end(s: Seq<char>, i: int) -> int
    decreases s.len() - i,
{
    if 0 <= i < s.len() && is_alphanumeric(s[i]) {
        word_end(s, i + 1)
    } else {
        i
    }
}

/// The first position at or after `i` that holds `c`, or the end.
pub open spec fn find_char(s: Seq<char>, i: int, c: char) -> int
    decreases s.len() - i,
{
    if 0 <= i < s.len() && s[i] != c {
        find_char(s, i + 1, c)
    } else {
        i
    }
}

/// The end of a number that starts at `i`: digits, then a `.` and more digits
/// where a digit follows the `.`.
pub open spec fn number_end(s: Seq<char>, i: int) -> int {
    let j: int = digits_end(s, i);
    if j + 1 < s.len() && s[j] == '.' && is_digit(s[j + 1]) {
        digits_end(s, j + 1)
    } else {
        j
    }
}

/// How many newlines `s` holds.
pub open spec fn newlines(s: Seq<char>) -> int
    decreases s.len(),
{
    if s.len() == 0 {
        0
    } else {
        newlines(s.drop_last()) + if s.last() == '\n' { 1int } else { 0int }
    }
}

/// The keyword that a word is, if it is one.
pub open spec fn keyword(w: Seq<char>) -> Option<TokenTypeView> {
    if w == "and"@ {
        Some(TokenTypeView::And)
    } else if w == "class"@ {
        Some(TokenTypeView::Class)
    } else if w == "else"@ {
        Some(TokenTypeView::Else)
    } else if w == "false"@ {
        Some(TokenTypeView::False)
    } else if w == "for"@ {
        Some(TokenTypeView::For)
    } else if w == "fun"@ {
        Some(TokenTypeView::Fun)
    } else if w == "if"@ {
        Some(TokenTypeView::If)
    } else if w == "nil"@ {
        Some(TokenTypeView::Nil)
    } else if w == "or"@ {
        Some(TokenTypeView::Or)
    } else if w == "print"@ {
        Some(TokenTypeView::Print)
    } else if w == "return"@ {
        Some(TokenTypeView::Return)
    } else if w == "super"@ {
        Some(TokenTypeView::Super)
    } else if w == "this"@ {
        Some(TokenTypeView::This)
    } else if w == "true"@ {
        Some(TokenTypeView::True)
    } else if w == "var"@ {
        Some(TokenTypeView::Var)
    } else if w == "while"@ {
        Some(TokenTypeView::While)
    } else {
        None
    }
}

/// What one step of scanning does: the token or error it records, where the
/// next step starts, and the line there.
pub struct Step {
    pub token: Option<TokenTypeView>,
    pub error: Option<ScannerError>,
    pub next: int,
    pub line: int,
}

pub open spec fn emit(t: TokenTypeView, next: int, line: int) -> Step {
    Step { token: Some(t), error: None, next, line }
}

pub open spec fn skip(next: int, line: int) -> Step {
    Step { token: None, error: None, next, line }
}

/// Whether the character after `i` is `c`.
pub open spec fn followed_by(s: Seq<char>, i: int, c: char) -> bool {
    i + 1 < s.len() && s[i + 1] == c
}

/// The token that `c` is on its own, or with a following `=` when `eq`.
pub open spec fn operator_token(c: char, eq: bool) -> Option<TokenTypeView> {
    if c == '(' {
        Some(TokenTypeView::LeftParenthesis)
    } else if c == ')' {
        Some(TokenTypeView::RightParenthesis)
    } else if c == '{' {
        Some(TokenTypeView::LeftBrace)
    } else if c == '}' {
        Some(TokenTypeView::RightBrace)
    } else if c == ',' {
        Some(TokenTypeView::Comma)
    } else if c == '.' {
        Some(TokenTypeView::Dot)
    } else if c == '-' {
        Some(TokenTypeView::Operator(Operator::Minus))
    } else if c == '+' {
        Some(TokenTypeView::Operator(Operator::Plus))
    } else if c == ';' {
        Some(TokenTypeView::Semicolon)
    } else if c == '*' {
        Some(TokenTypeView::Operator(Operator::Star))
    } else if c == '!' {
        Some(if eq { TokenTypeView::Operator(Operator::BangEqual) } else { TokenTypeView::Bang })
    } else if c == '=' {
        Some(
            if eq {
                TokenTypeView::Operator(Operator::EqualEqual)
            } else {
                TokenTypeView::Equal
            },
        )
    } else if c == '<' {
        Some(
            TokenTypeView::Operator(if eq { Operator::LessEqual } else { Operator::Less }),
        )
    } else if c == '>' {
        Some(
            TokenTypeView::Operator(if eq { Operator::GreaterEqual } else { Operator::Greater }),
        )
    } else {
        None
    }
}

/// Whether `c` may take a following `=` into its token.
pub open spec fn takes_equal(c: char) -> bool {
    c == '!' || c == '=' || c == '<' || c == '>'
}

/// One step of scanning at position `i`, on line `line`.
pub open spec fn step(s: Seq<char>, i: int, line: int) -> Step {
    let c = s[i];
    if c == '/' {
        if followed_by(s, i, '/') {
            skip(find_char(s, i + 2, '\n'), line)
        } else {
            emit(TokenTypeView::Operator(Operator::Slash), i + 1, line)
        }
    } else if operator_token(c, false) is Some {
        let eq = takes_equal(c) && followed_by(s, i, '=');
        emit(operator_token(c, eq)->0, if eq { i + 2 } else { i + 1 }, line)
    } else if c == '"' {
        let j: int = find_char(s, i + 1, '"');
        let l: int = line + newlines(s.subrange(i + 1, j));
        if j >= s.len() {
            Step {
                token: None,
                error: Some(ScannerError::UnterminatedString(line as usize, byte_offset(s, i) as usize)),
                next: j,
                line: l,
            }
        } else {
            emit(TokenTypeView::Str(s.subrange(i + 1, j)), j + 1, l)
        }
    } else if is_digit(c) {
        let j: int = number_end(s, i);
        emit(TokenTypeView::Number(s.subrange(i, j)), j, line)
    } else if is_alpha(c) {
        let j: int = word_end(s, i + 1);
        let w = s.subrange(i, j);
        emit(
            match keyword(w) {
                Some(k) => k,
                None => TokenTypeView::Identifier(w),
            },
            j,
            line,
        )
    } else if c == ' ' || c == '\r' || c == '\t' {
        skip(i + 1, line)
    } else if c == '\n' {
        skip(i + 1, line + 1)
    } else {
        Step {
            token: None,
            error: Some(ScannerError::UnknownToken(c, line as usize, byte_offset(s, i) as usize)),
            next: i + 1,
            line,
        }
    }
}

/// What scanning from position `i` on line `line` to the end records, and the
/// line it ends on.
pub struct Scan {
    pub tokens: Seq<TokenView>,
    pub errors: Seq<ScannerError>,
    pub line: int,
}

pub open spec fn option_seq<T>(o: Option<T>) -> Seq<T> {
    match o {
        Some(x) => seq![x],
        None => seq![],
    }
}

pub open spec fn lex(s: Seq<char>, i: int, line: int) -> Scan
    decreases s.len() - i,
{
    if i < 0 || i >= s.len() {
        Scan { tokens: seq![], errors: seq![], line }
    } else {
        let st = step(s, i, line);
        if st.next <= i || st.next > s.len() {
            Scan { tokens: seq![], errors: seq![], line }
        } else {
            let rest = lex(s, st.next, st.line);
            Scan {
                tokens: option_seq(
                    match st.token {
                        Some(k) => Some(TokenView { kind: k, line, offset: byte_offset(s, i) }),
                        None => None,
                    },
                ) + rest.tokens,
                errors: option_seq(st.error) + rest.errors,
                line: rest.line,
            }
        }
    }
}

/// The tokens of a source text, ended by an end-of-file token.
pub open spec fn scanned_tokens(s: Seq<char>) -> Seq<TokenView> {
    let sc = lex(s, 0, 1);
    sc.tokens.push(TokenView { kind: TokenTypeView::Eof, line: sc.line, offset: utf8_len(s) })
}

/// The lexical errors of a source text, in the order of the text.
pub open spec fn scanned_errors(s: Seq<char>) -> Seq<ScannerError> {
    lex(s, 0, 1).errors
}

proof fn lemma_digits_end(s: Seq<char>, i: int)
    requires
        0 <= i <= s.len(),
    ensures
        i <= digits_end(s, i) <= s.len(),
    decreases s.len() - i,
{
    if i < s.len() && is_digit(s[i]) {
        lemma_digits_end(s, i + 1);
    }
}

proof fn lemma_word_end(s: Seq<char>, i: int)
    requires
        0 <= i <= s.len(),
    ensures
        i <= word_end(s, i) <= s.len(),
    decreases s.len() - i,
{
    if i < s.len() && is_alphanumeric(s[i]) {
        lemma_word_end(s, i + 1);
    }
}

pub(crate) proof fn lemma_find_char(s: Seq<char>, i: int, c: char)
    requires
        0 <= i <= s.len(),
    ensures
        i <= find_char(s, i, c) <= s.len(),
        find_char(s, i, c) < s.len() ==> s[find_char(s, i, c)] == c,
    decreases s.len() - i,
{
    if i < s.len() && s[i] != c {
        lemma_find_char(s, i + 1, c);
    }
}

proof fn lemma_newlines_bound(s: Seq<char>)
    ensures
        0 <= newlines(s) <= s.len(),
    decreases s.len(),
{
    if s.len() > 0 {
        lemma_newlines_bound(s.drop_last());
    }
}

/// A step of scanning moves forward and stays within the text, and the line
/// grows by at most the characters it passes.
proof fn lemma_step(s: Seq<char>, i: int, line: int)
    requires
        0 <= i < s.len(),
    ensures
        i < step(s, i, line).next <= s.len(),
        line <= step(s, i, line).line <= line + (step(s, i, line).next - i),
{
    let c = s[i];
    if c == '/' {
        if followed_by(s, i, '/') {
            lemma_find_char(s, i + 2, '\n');
        }
    } else if c == '"' {
        lemma_find_char(s, i + 1, '"');
        let j: int = find_char(s, i + 1, '"');
        lemma_newlines_bound(s.subrange(i + 1, j));
    } else if is_digit(c) {
        lemma_digits_end(s, i + 1);
        let j: int = digits_end(s, i);
        if j + 1 < s.len() && s[j] == '.' && is_digit(s[j + 1]) {
            lemma_digits_end(s, j + 1);
        }
    } else if is_alpha(c) {
        lemma_word_end(s, i + 1);
    }
}

fn digits_end_exec(s: &Vec<char>, i: usize) -> (r: usize)
    requires
        i <= s@.len(),
    ensures
        r == digits_end(s@, i as int),
{
    let mut j: usize = i;
    while j < s.len() && '0' <= s[j] && s[j] <= '9'
        invariant
            i <= j <= s@.len(),
            digits_end(s@, j as int) == digits_end(s@, i as int),
        decreases s@.len() - j,
    {
        j = j + 1;
    }
    j
}

fn word_end_exec(s: &Vec<char>, i: usize) -> (r: usize)
    requires
        i <= s@.len(),
    ensures
        r == word_end(s@, i as int),
{
    let mut j: usize = i;
    while j < s.len() && is_alphanumeric_exec(s[j])
        invariant
            i <= j <= s@.len(),
            word_end(s@, j as int) == word_end(s@, i as int),
        decreases s@.len() - j,
    {
        j = j + 1;
    }
    j
}

pub(crate) fn find_char_exec(s: &Vec<char>, i: usize, c: char) -> (r: usize)
    requires
        i <= s@.len(),
    ensures
        r == find_char(s@, i as int, c),
{
    let mut j: usize = i;
    while j < s.len() && s[j] != c
        invariant
            i <= j <= s@.len(),
            find_char(s@, j as int, c) == find_char(s@, i as int, c),
        decreases s@.len() - j,
    {
        j = j + 1;
    }
    j
}

fn newlines_exec(s: &Vec<char>, i: usize, j: usize) -> (r: usize)
    requires
        i <= j <= s@.len(),
    ensures
        r == newlines(s@.subrange(i as int, j as int)),
        r <= j - i,
{
    let mut k: usize = i;
    let mut n: usize = 0;
    while k < j
        invariant
            i <= k <= j <= s@.len(),
            n == newlines(s@.subrange(i as int, k as int)),
            n <= k - i,
        decreases j - k,
    {
        assert(s@.subrange(i as int, k + 1 as int).drop_last() =~= s@.subrange(i as int, k as int));
        if s[k] == '\n' {
            n = n + 1;
        }
        k = k + 1;
    }
    n
}

fn is_digit_exec(c: char) -> (r: bool)
    ensures
        r == is_digit(c),
{
    '0' <= c && c <= '9'
}

fn is_alpha_exec(c: char) -> (r: bool)
    ensures
        r == is_alpha(c),
{
    ('a' <= c && c <= 'z') || ('A' <= c && c <= 'Z') || c == '_'
}

fn is_alphanumeric_exec(c: char) -> (r: bool)
    ensures
        r == is_alphanumeric(c),
{
    is_alpha_exec(c) || is_digit_exec(c)
}

/// The token that `c` is on its own, or with a following `=` when `eq`.
fn operator_token_exec(c: char, eq: bool) -> (r: Option<TokenType>)
    ensures
        r is Some == operator_token(c, eq) is Some,
        r is Some ==> r->0@ == operator_token(c, eq)->0,
{
    if c == '(' {
        Some(TokenType::LeftParenthesis)
    } else if c == ')' {
        Some(TokenType::RightParenthesis)
    } else if c == '{' {
        Some(TokenType::LeftBrace)
    } else if c == '}' {
        Some(TokenType::RightBrace)
    } else if c == ',' {
        Some(TokenType::Comma)
    } else if c == '.' {
        Some(TokenType::Dot)
    } else if c == '-' {
        Some(TokenType::Operator(Operator::Minus))
    } else if c == '+' {
        Some(TokenType::Operator(Operator::Plus))
    } else if c == ';' {
        Some(TokenType::Semicolon)
    } else if c == '*' {
        Some(TokenType::Operator(Operator::Star))
    } else if c == '!' {
        Some(if eq { TokenType::Operator(Operator::BangEqual) } else { TokenType::Bang })
    } else if c == '=' {
        Some(if eq { TokenType::Operator(Operator::EqualEqual) } else { TokenType::Equal })
    } else if c == '<' {
        Some(TokenType::Operator(if eq { Operator::LessEqual } else { Operator::Less }))
    } else if c == '>' {
        Some(TokenType::Operator(if eq { Operator::GreaterEqual } else { Operator::Greater }))
    } else {
        None
    }
}

/// The keyword token that a word is, if it is one.
fn keyword_token(w: &String) -> (r: Option<TokenType>)
    ensures
        r is Some == keyword(w@) is Some,
        r is Some ==> r->0@ == keyword(w@)->0,
{
    if *w == String::from_str("and") {
        Some(TokenType::And)
    } else if *w == String::from_str("class") {
        Some(TokenType::Class)
    } else if *w == String::from_str("else") {
        Some(TokenType::Else)
    } else if *w == String::from_str("false") {
        Some(TokenType::Literal(Literal::False))
    } else if *w == String::from_str("for") {
        Some(TokenType::For)
    } else if *w == String::from_str("fun") {
        Some(TokenType::Fun)
    } else if *w == String::from_str("if") {
        Some(TokenType::If)
    } else if *w == String::from_str("nil") {
        Some(TokenType::Literal(Literal::Nil))
    } else if *w == String::from_str("or") {
        Some(TokenType::Or)
    } else if *w == String::from_str("print") {
        Some(TokenType::Print)
    } else if *w == String::from_str("return") {
        Some(TokenType::Return)
    } else if *w == String::from_str("super") {
        Some(TokenType::Super)
    } else if *w == String::from_str("this") {
        Some(TokenType::This)
    } else if *w == String::from_str("true") {
        Some(TokenType::Literal(Literal::True))
    } else if *w == String::from_str("var") {
        Some(TokenType::Var)
    } else if *w == String::from_str("while") {
        Some(TokenType::While)
    } else {
        None
    }
}

/// The characters of a text, in order.
pub(crate) fn chars_of(text: &str) -> (r: Vec<char>)
    ensures
        r@ == text@,
{
    let mut out: Vec<char> = Vec::new();
    for c in it: text.chars()
        invariant
            it.seq() == text@,
            out@ == text@.take(it.index() as int),
    {
        out.push(c);
    }
    assert(out@ =~= text@);
    out
}

/// Whether `c` starts no token: scanning it records an unknown-character
/// error.
pub open spec fn is_unknown(c: char) -> bool {
    !(c == '/' || operator_token(c, false) is Some || c == '"' || is_digit(c) || is_alpha(c) || c
        == ' ' || c == '\r' || c == '\t' || c == '\n')
}

/// An unknown character is recorded as an error, with its line and position,
/// and scanning goes on with the next character: what the rest of the text
/// gives is kept.
pub proof fn lemma_unknown_character_continues(s: Seq<char>, i: int, line: int)
    requires
        0 <= i < s.len(),
        is_unknown(s[i]),
    ensures
        lex(s, i, line).tokens == lex(s, i + 1, line).tokens,
        lex(s, i, line).errors == seq![
            ScannerError::UnknownToken(s[i], line as usize, byte_offset(s, i) as usize),
        ]
            + lex(s, i + 1, line).errors,
        lex(s, i, line).line == lex(s, i + 1, line).line,
{
    assert(seq![] + lex(s, i + 1, line).tokens =~= lex(s, i + 1, line).tokens);
}

/// Whether `n` is a numeric literal: a digit, and the scanner's number
/// running to its end.
pub open spec fn is_number_literal(n: Seq<char>) -> bool {
    n.len() > 0 && is_digit(n[0]) && number_end(n, 0) == n.len()
}

proof fn lemma_digits_end_before_semicolon(n: Seq<char>, i: int)
    requires
        0 <= i <= n.len(),
    ensures
        digits_end(n.push(';'), i) == digits_end(n, i),
    decreases n.len() - i,
{
    if i < n.len() && is_digit(n[i]) {
        lemma_digits_end_before_semicolon(n, i + 1);
    }
}

/// A numeric literal followed by a semicolon scans as a number token and a
/// semicolon token, with no error.
pub(crate) proof fn lemma_scan_number_statement(n: Seq<char>)
    requires
        is_number_literal(n),
    ensures
        scanned_errors(n.push(';')).len() == 0,
        scanned_tokens(n.push(';')) == seq![
            TokenView { kind: TokenTypeView::Number(n), line: 1, offset: 0 },
            TokenView {
                kind: TokenTypeView::Semicolon,
                line: 1,
                offset: byte_offset(n.push(';'), n.len() as int),
            },
            TokenView { kind: TokenTypeView::Eof, line: 1, offset: utf8_len(n.push(';')) },
        ],
{
    let s = n.push(';');
    lemma_digits_end_before_semicolon(n, 0);
    lemma_digits_end(n, 0);
    let j = digits_end(n, 0);
    if j + 1 < n.len() && n[j] == '.' && is_digit(n[j + 1]) {
        lemma_digits_end_before_semicolon(n, j + 1);
    }
    assert(number_end(s, 0) == n.len());
    assert(s.subrange(0, n.len() as int) =~= n);
    assert(s[n.len() as int] == ';');
    assert(step(s, n.len() as int, 1) == emit(TokenTypeView::Semicolon, n.len() + 1int, 1));
    assert(lex(s, n.len() + 1int, 1).tokens == Seq::<TokenView>::empty());
    assert(lex(s, n.len() + 1int, 1).errors == Seq::<ScannerError>::empty());
    assert(lex(s, n.len() as int, 1).tokens =~= seq![
        TokenView { kind: TokenTypeView::Semicolon, line: 1, offset: byte_offset(s, n.len() as int) },
    ]);
    assert(lex(s, n.len() as int, 1).errors =~= seq![]);
    assert(lex(s, 0, 1).tokens =~= seq![
        TokenView { kind: TokenTypeView::Number(n), line: 1, offset: 0 },
        TokenView { kind: TokenTypeView::Semicolon, line: 1, offset: byte_offset(s, n.len() as int) },
    ]);
    assert(lex(s, 0, 1).errors =~= seq![]);
    assert(scanned_tokens(s) =~= seq![
        TokenView { kind: TokenTypeView::Number(n), line: 1, offset: 0 },
        TokenView { kind: TokenTypeView::Semicolon, line: 1, offset: byte_offset(s, n.len() as int) },
        TokenView { kind: TokenTypeView::Eof, line: 1, offset: utf8_len(s) },
    ]);
}

/// Each character takes at least one byte.
proof fn lemma_byte_offset_grows(s: Seq<char>, i: int, j: int)
    requires
        0 <= i <= j,
    ensures
        byte_offset(s, i) + (j - i) <= byte_offset(s, j),
    decreases j - i,
{
    if i < j {
        lemma_byte_offset_grows(s, i, j - 1);
    }
}

proof fn lemma_width_is_encoding_length(c: char)
    ensures
        encode_scalar(c as u32).len() == utf8_width(c),
{
    broadcast use vstd::utf8::char_is_scalar;

    assert(is_scalar(c as u32));
}

proof fn lemma_encode_push(a: Seq<char>, c: char)
    ensures
        encode_utf8(a.push(c)).len() == encode_utf8(a).len() + utf8_width(c),
    decreases a.len(),
{
    lemma_width_is_encoding_length(c);
    if a.len() > 0 {
        assert(a.push(c).drop_first() =~= a.drop_first().push(c));
        assert(a.push(c)[0] == a[0]);
        lemma_encode_push(a.drop_first(), c);
        assert(encode_utf8(a.push(c)) == encode_scalar(a[0] as u32) + encode_utf8(
            a.drop_first().push(c),
        ));
        assert(encode_utf8(a) == encode_scalar(a[0] as u32) + encode_utf8(a.drop_first()));
    } else {
        assert(a.push(c).drop_first() =~= Seq::<char>::empty());
        assert(a.push(c)[0] == c);
        assert(encode_utf8(Seq::<char>::empty()).len() == 0);
        assert(encode_utf8(a.push(c)) == encode_scalar(c as u32) + encode_utf8(
            Seq::<char>::empty(),
        ));
    }
}

/// `utf8_len` is the length of the UTF-8 encoding, as vstd defines it.
pub proof fn lemma_utf8_len_is_encoded_length(s: Seq<char>)
    ensures
        utf8_len(s) == encode_utf8(s).len(),
{
    assert forall|i: int| 0 <= i <= s.len() implies byte_offset(s, i) == encode_utf8(
        s.take(i),
    ).len() by {
        lemma_byte_offset_prefix(s, i);
    }
    assert(s.take(s.len() as int) =~= s);
}

proof fn lemma_byte_offset_prefix(s: Seq<char>, i: int)
    requires
        0 <= i <= s.len(),
    ensures
        byte_offset(s, i) == encode_utf8(s.take(i)).len(),
    decreases i,
{
    if i > 0 {
        lemma_byte_offset_prefix(s, i - 1);
        assert(s.take(i) =~= s.take(i - 1).push(s[i - 1]));
        lemma_encode_push(s.take(i - 1), s[i - 1]);
    } else {
        assert(s.take(0) =~= Seq::<char>::empty());
    }
}

fn utf8_width_exec(c: char) -> (r: usize)
    ensures
        r == utf8_width(c),
{
    let v = c as u32;
    if v <= 0x7F {
        1
    } else if v <= 0x7FF {
        2
    } else if v <= 0xFFFF {
        3
    } else {
        4
    }
}

/// The number of bytes that characters `i` to `j` of `s` take in UTF-8.
pub(crate) fn bytes_between(s: &Vec<char>, i: usize, j: usize) -> (r: usize)
    requires
        i <= j <= s@.len(),
        utf8_len(s@) < usize::MAX,
    ensures
        r == byte_offset(s@, j as int) - byte_offset(s@, i as int),
{
    let mut k: usize = i;
    let mut n: usize = 0;
    while k < j
        invariant
            i <= k <= j <= s@.len(),
            utf8_len(s@) < usize::MAX,
            n == byte_offset(s@, k as int) - byte_offset(s@, i as int),
        decreases j - k,
    {
        proof {
            lemma_byte_offset_grows(s@, 0, i as int);
            lemma_byte_offset_grows(s@, k + 1, s@.len() as int);
        }
        n = n + utf8_width_exec(s[k]);
        k = k + 1;
    }
    n
}

/// Turns a source text into tokens, in one pass from left to right.
pub struct Scanner<'a> {
    /// The text to scan.
    source: &'a str,
    /// The characters of the text.
    chars: Vec<char>,
    /// The line of the character at `current`, counted from 1.
    line: usize,
    /// Where the lexeme being scanned starts.
    start: usize,
    /// The byte offset of `start` in the text.
    byte: usize,
    /// The next character to look at.
    current: usize,
    /// The tokens scanned so far.
    tokens: Vec<Token<TokenType>>,
    /// The errors met so far.
    errors: Vec<ScannerError>,
}

/// The token that a step of scanning at byte offset `offset`, on line
/// `line`, records.
pub open spec fn step_token(st: Step, offset: int, line: int) -> Seq<TokenView> {
    option_seq(
        match st.token {
            Some(k) => Some(TokenView { kind: k, line, offset }),
            None => None,
        },
    )
}

proof fn lemma_tokens_view_push(ts: Seq<Token<TokenType>>, t: Token<TokenType>)
    ensures
        tokens_view(ts.push(t)) == tokens_view(ts).push(token_view(t)),
{
    assert(tokens_view(ts.push(t)) =~= tokens_view(ts).push(token_view(t)));
}

impl<'a> Scanner<'a> {
    /// The text this scanner reads.
    pub closed spec fn text(&self) -> Seq<char> {
        self.source@
    }

    /// Whether this scanner has read nothing yet.
    pub closed spec fn is_fresh(&self) -> bool {
        &&& self.wf()
        &&& self.current == 0
        &&& self.line == 1
        &&& self.tokens@.len() == 0
        &&& self.errors@.len() == 0
    }

    closed spec fn wf(&self) -> bool {
        &&& self.chars@ == self.source@
        &&& self.chars@.len() < usize::MAX
        &&& utf8_len(self.chars@) < usize::MAX
        &&& self.byte == byte_offset(self.chars@, self.start as int)
        &&& self.start <= self.current <= self.chars@.len()
        &&& 1 <= self.line <= self.current + 1
    }

    /// A scanner of `source`.
    pub fn new(source: &'a str) -> (r: Scanner<'a>)
        requires
            utf8_len(source@) < usize::MAX,
        ensures
            r.text() == source@,
            r.is_fresh(),
    {
        proof {
            lemma_byte_offset_grows(source@, 0, source@.len() as int);
        }
        Scanner {
            source,
            chars: chars_of(source),
            line: 1,
            start: 0,
            byte: 0,
            current: 0,
            tokens: Vec::new(),
            errors: Vec::new(),
        }
    }

    /// The tokens of the whole text, ended by an end-of-file token; or, where
    /// the text holds lexical errors, all of them.
    pub fn scan_tokens(self) -> (r: Result<Vec<Token<TokenType>>, Vec<ScannerError>>)
        requires
            self.is_fresh(),
        ensures
            match r {
                Ok(tokens) => scanned_errors(self.text()).len() == 0 && tokens_view(tokens@)
                    == scanned_tokens(self.text()),
                Err(errors) => scanned_errors(self.text()).len() > 0 && errors@ == scanned_errors(
                    self.text(),
                ),
            },
    {
        let ghost s = self.text();
        let mut sc = self;
        assert(tokens_view(sc.tokens@) =~= seq![]);
        assert(sc.errors@ =~= seq![]);
        while !sc.is_at_end()
            invariant
                sc.wf(),
                sc.chars@ == s,
                sc.start == sc.current,
                lex(s, 0, 1).tokens == tokens_view(sc.tokens@) + lex(
                    s,
                    sc.current as int,
                    sc.line as int,
                ).tokens,
                lex(s, 0, 1).errors == sc.errors@ + lex(s, sc.current as int, sc.line as int).errors,
                lex(s, 0, 1).line == lex(s, sc.current as int, sc.line as int).line,
            decreases s.len() - sc.current,
        {
            proof {
                lemma_step(s, sc.current as int, sc.line as int);
            }
            let ghost before_tokens = sc.tokens@;
            let ghost before_errors = sc.errors@;
            let ghost i = sc.current as int;
            let ghost line = sc.line as int;
            sc.scan_token();
            let passed = bytes_between(&sc.chars, sc.start, sc.current);
            proof {
                lemma_byte_offset_grows(s, sc.current as int, s.len() as int);
            }
            sc.byte = sc.byte + passed;
            sc.start = sc.current;
            let ghost st = step(s, i, line);
            assert(lex(s, i, line).tokens == step_token(st, byte_offset(s, i), line) + lex(
                s,
                st.next,
                st.line,
            ).tokens);
            assert(tokens_view(before_tokens) + lex(s, i, line).tokens =~= tokens_view(sc.tokens@)
                + lex(s, sc.current as int, sc.line as int).tokens);
            assert(before_errors + lex(s, i, line).errors =~= sc.errors@ + lex(
                s,
                sc.current as int,
                sc.line as int,
            ).errors);
        }
        assert(tokens_view(sc.tokens@) + lex(s, sc.current as int, sc.line as int).tokens
            =~= tokens_view(sc.tokens@));
        assert(sc.errors@ + lex(s, sc.current as int, sc.line as int).errors =~= sc.errors@);
        if sc.errors.len() == 0 {
            let end: usize = sc.byte;
            let line: usize = sc.line;
            let eof = Token::new(TokenType::Eof, line, end);
            proof {
                lemma_tokens_view_push(sc.tokens@, eof);
            }
            sc.tokens.push(eof);
            Ok(sc.tokens)
        } else {
            Err(sc.errors)
        }
    }

    fn is_at_end(&self) -> (r: bool)
        ensures
            r == (self.current >= self.chars@.len()),
    {
        self.current >= self.chars.len()
    }

    /// Scans the lexeme that starts at `current`.
    fn scan_token(&mut self)
        requires
            old(self).wf(),
            old(self).start == old(self).current,
            old(self).current < old(self).chars@.len(),
        ensures
            final(self).wf(),
            final(self).source == old(self).source,
            final(self).chars == old(self).chars,
            final(self).current == step(
                old(self).chars@,
                old(self).current as int,
                old(self).line as int,
            ).next,
            final(self).line == step(
                old(self).chars@,
                old(self).current as int,
                old(self).line as int,
            ).line,
            tokens_view(final(self).tokens@) == tokens_view(old(self).tokens@) + step_token(
                step(old(self).chars@, old(self).current as int, old(self).line as int),
                byte_offset(old(self).chars@, old(self).current as int),
                old(self).line as int,
            ),
            final(self).start == old(self).start,
            final(self).errors@ == old(self).errors@ + option_seq(
                step(old(self).chars@, old(self).current as int, old(self).line as int).error,
            ),
    {
        let ghost s = self.chars@;
        let ghost t0 = self.tokens@;
        let ghost e0 = self.errors@;
        let i: usize = self.current;
        proof {
            lemma_step(s, i as int, self.line as int);
        }
        let c = self.advance();
        if c == '/' {
            if self.match_current('/') {
                self.current = find_char_exec(&self.chars, self.current, '\n');
            } else {
                self.add_token(TokenType::Operator(Operator::Slash));
            }
        } else if operator_token_exec(c, false).is_some() {
            let eq = if c == '!' || c == '=' || c == '<' || c == '>' {
                self.match_current('=')
            } else {
                false
            };
            match operator_token_exec(c, eq) {
                Some(t) => self.add_token(t),
                None => {},
            }
        } else if c == '"' {
            self.scan_string();
        } else if is_digit_exec(c) {
            self.scan_number();
        } else if is_alpha_exec(c) {
            self.scan_identifier();
        } else if c == ' ' || c == '\r' || c == '\t' {
        } else if c == '\n' {
            self.line = self.line + 1;
        } else {
            self.errors.push(ScannerError::UnknownToken(c, self.line, self.byte));
        }
        assert(tokens_view(t0) + seq![] =~= tokens_view(t0));
        assert(e0 + seq![] =~= e0);
    }

    /// Records a token of the given type for the current lexeme.
    fn add_token(&mut self, token_type: TokenType)
        ensures
            final(self).source == old(self).source,
            final(self).chars == old(self).chars,
            final(self).line == old(self).line,
            final(self).start == old(self).start,
            final(self).byte == old(self).byte,
            final(self).current == old(self).current,
            final(self).errors == old(self).errors,
            tokens_view(final(self).tokens@) == tokens_view(old(self).tokens@).push(
                TokenView {
                    kind: token_type@,
                    line: old(self).line as int,
                    offset: old(self).byte as int,
                },
            ),
    {
        let token = Token::new(token_type, self.line, self.byte);
        proof {
            lemma_tokens_view_push(self.tokens@, token);
        }
        self.tokens.push(token);
    }

    /// Consumes the current character and returns it.
    fn advance(&mut self) -> (c: char)
        requires
            old(self).current < old(self).chars@.len(),
            old(self).chars@.len() < usize::MAX,
        ensures
            c == old(self).chars@[old(self).current as int],
            final(self).current == old(self).current + 1,
            final(self).source == old(self).source,
            final(self).chars == old(self).chars,
            final(self).line == old(self).line,
            final(self).start == old(self).start,
            final(self).byte == old(self).byte,
            final(self).tokens == old(self).tokens,
            final(self).errors == old(self).errors,
    {
        let c = self.chars[self.current];
        self.current = self.current + 1;
        c
    }

    /// Consumes the current character if it is `expected`, and says whether it
    /// did.
    fn match_current(&mut self, expected: char) -> (r: bool)
        requires
            old(self).current <= old(self).chars@.len(),
            old(self).chars@.len() < usize::MAX,
        ensures
            r == (old(self).current < old(self).chars@.len() && old(self).chars@[old(
                self,
            ).current as int] == expected),
            final(self).current == old(self).current + if r { 1int } else { 0int },
            final(self).source == old(self).source,
            final(self).chars == old(self).chars,
            final(self).line == old(self).line,
            final(self).start == old(self).start,
            final(self).byte == old(self).byte,
            final(self).tokens == old(self).tokens,
            final(self).errors == old(self).errors,
    {
        if self.current < self.chars.len() && self.chars[self.current] == expected {
            self.current = self.current + 1;
            true
        } else {
            false
        }
    }

    /// Scans a string whose opening quote was just consumed.
    fn scan_string(&mut self)
        requires
            old(self).wf(),
            old(self).current == old(self).start + 1,
            old(self).chars@[old(self).start as int] == '"',
        ensures
            ({
                let s = old(self).chars@;
                let i: int = old(self).start as int;
                let st = step(s, i, old(self).line as int);
                &&& final(self).wf()
                &&& final(self).source == old(self).source
                &&& final(self).chars == old(self).chars
                &&& final(self).start == old(self).start
                &&& final(self).current == st.next
                &&& final(self).line == st.line
                &&& tokens_view(final(self).tokens@) == tokens_view(old(self).tokens@) + step_token(
                    st,
                    byte_offset(s, i),
                    old(self).line as int,
                )
                &&& final(self).errors@ == old(self).errors@ + option_seq(st.error)
            }),
    {
        let ghost s = self.chars@;
        proof {
            lemma_step(s, self.start as int, self.line as int);
            lemma_find_char(s, self.current as int, '"');
        }
        let ghost t0 = self.tokens@;
        let j: usize = find_char_exec(&self.chars, self.current, '"');
        let lines: usize = newlines_exec(&self.chars, self.current, j);
        let start_line: usize = self.line;
        self.line = self.line + lines;
        if j >= self.chars.len() {
            self.current = j;
            self.errors.push(ScannerError::UnterminatedString(start_line, self.byte));
            assert(tokens_view(t0) + seq![] =~= tokens_view(t0));
        } else {
            let content = self.source.substring_char(self.current, j).to_owned();
            self.current = j + 1;
            let token = Token::new(
                TokenType::Literal(Literal::Str(content)),
                start_line,
                self.byte,
            );
            proof {
                lemma_tokens_view_push(self.tokens@, token);
            }
            self.tokens.push(token);
            assert(old(self).errors@ + seq![] =~= old(self).errors@);
        }
    }

    /// Scans a number whose first digit was just consumed.
    fn scan_number(&mut self)
        requires
            old(self).wf(),
            old(self).current == old(self).start + 1,
            is_digit(old(self).chars@[old(self).start as int]),
        ensures
            ({
                let s = old(self).chars@;
                let i: int = old(self).start as int;
                let st = step(s, i, old(self).line as int);
                &&& final(self).wf()
                &&& final(self).source == old(self).source
                &&& final(self).chars == old(self).chars
                &&& final(self).start == old(self).start
                &&& final(self).current == st.next
                &&& final(self).line == st.line
                &&& tokens_view(final(self).tokens@) == tokens_view(old(self).tokens@) + step_token(
                    st,
                    byte_offset(s, i),
                    old(self).line as int,
                )
                &&& final(self).errors == old(self).errors
            }),
    {
        let ghost s = self.chars@;
        proof {
            lemma_step(s, self.start as int, self.line as int);
            lemma_digits_end(s, self.current as int);
        }
        let mut j: usize = digits_end_exec(&self.chars, self.current);
        if j + 1 < self.chars.len() && self.chars[j] == '.' && is_digit_exec(self.chars[j + 1]) {
            j = digits_end_exec(&self.chars, j + 1);
        }
        let text = self.source.substring_char(self.start, j).to_owned();
        self.current = j;
        let token = Token::new(TokenType::Literal(Literal::Number(text)), self.line, self.byte);
        proof {
            lemma_tokens_view_push(self.tokens@, token);
        }
        self.tokens.push(token);
    }

    /// Scans a name or keyword whose first character was just consumed.
    fn scan_identifier(&mut self)
        requires
            old(self).wf(),
            old(self).current == old(self).start + 1,
            is_alpha(old(self).chars@[old(self).start as int]),
        ensures
            ({
                let s = old(self).chars@;
                let i: int = old(self).start as int;
                let st = step(s, i, old(self).line as int);
                &&& final(self).wf()
                &&& final(self).source == old(self).source
                &&& final(self).chars == old(self).chars
                &&& final(self).start == old(self).start
                &&& final(self).current == st.next
                &&& final(self).line == st.line
                &&& tokens_view(final(self).tokens@) == tokens_view(old(self).tokens@) + step_token(
                    st,
                    byte_offset(s, i),
                    old(self).line as int,
                )
                &&& final(self).errors == old(self).errors
            }),
    {
        let ghost s = self.chars@;
        proof {
            lemma_step(s, self.start as int, self.line as int);
        }
        let j: usize = word_end_exec(&self.chars, self.current);
        let text = self.source.substring_char(self.start, j).to_owned();
        self.current = j;
        let token_type = match keyword_token(&text) {
            Some(k) => k,
            None => TokenType::Identifier(Identifier { name: text }),
        };
        let token = Token::new(token_type, self.line, self.byte);
        proof {
            lemma_tokens_view_push(self.tokens@, token);
        }
        self.tokens.push(token);
    }
}

} // verus!
