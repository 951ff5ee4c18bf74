use vstd::prelude::*;

verus! {

// ------------------------------------------------------------------
// Tokens
// ------------------------------------------------------------------

/// A primitive syntax token.
///
/// A numeric literal carries its text exactly as scanned (digits and at
/// most one `.`); the numeric value is recovered from the text by the
/// consumer of the syntax tree.
#[derive(Debug)]
pub enum Token {
    Binary,
    Bang,
    Comma,
    Colon,
    Comment,
    Fn,
    Else,
    EOF,
    Extern,
    For,
    Ident(String),
    If,
    In,
    Number(String),
    Op(char),
    LBrace,
    RBrace,
    LParen,
    RParen,
    Then,
    Mot,
    Lru,
    Mru,
    Lfu,
    Mfu,
    Unary,
    Var,
    Str(String),
}

/// The mathematical value of a `Token`: the same tag, with every owned
/// string abstracted to its sequence of characters.
pub enum TokV {
    Binary,
    Bang,
    Comma,
    Colon,
    Comment,
    Fn,
    Else,
    EOF,
    Extern,
    For,
    Ident(Seq<char>),
    If,
    In,
    Number(Seq<char>),
    Op(char),
    LBrace,
    RBrace,
    LParen,
    RParen,
    Then,
    Mot,
    Lru,
    Mru,
    Lfu,
    Mfu,
    Unary,
    Var,
    Str(Seq<char>),
}

impl View for Token {
    type V = TokV;

    open spec fn view(&self) -> TokV {
        match self {
            Token::Binary => TokV::Binary,
            Token::Bang => TokV::Bang,
            Token::Comma => TokV::Comma,
            Token::Colon => TokV::Colon,
            Token::Comment => TokV::Comment,
            Token::Fn => TokV::Fn,
            Token::Else => TokV::Else,
            Token::EOF => TokV::EOF,
            Token::Extern => TokV::Extern,
            Token::For => TokV::For,
            Token::Ident(s) => TokV::Ident(s@),
            Token::If => TokV::If,
            Token::In => TokV::In,
            Token::Number(s) => TokV::Number(s@),
            Token::Op(c) => TokV::Op(*c),
            Token::LBrace => TokV::LBrace,
            Token::RBrace => TokV::RBrace,
            Token::LParen => TokV::LParen,
            Token::RParen => TokV::RParen,
            Token::Then => TokV::Then,
            Token::Mot => TokV::Mot,
            Token::Lru => TokV::Lru,
            Token::Mru => TokV::Mru,
            Token::Lfu => TokV::Lfu,
            Token::Mfu => TokV::Mfu,
            Token::Unary => TokV::Unary,
            Token::Var => TokV::Var,
            Token::Str(s) => TokV::Str(s@),
        }
    }
}

impl Clone for Token {
    fn clone(&self) -> (r: Token)
        ensures
            r == *self,
    {
        match self {
            Token::Binary => Token::Binary,
            Token::Bang => Token::Bang,
            Token::Comma => Token::Comma,
            Token::Colon => Token::Colon,
            Token::Comment => Token::Comment,
            Token::Fn => Token::Fn,
            Token::Else => Token::Else,
            Token::EOF => Token::EOF,
            Token::Extern => Token::Extern,
            Token::For => Token::For,
            Token::Ident(s) => Token::Ident(s.clone()),
            Token::If => Token::If,
            Token::In => Token::In,
            Token::Number(s) => Token::Number(s.clone()),
            Token::Op(c) => Token::Op(*c),
            Token::LBrace => Token::LBrace,
            Token::RBrace => Token::RBrace,
            Token::LParen => Token::LParen,
            Token::RParen => Token::RParen,
            Token::Then => Token::Then,
            Token::Mot => Token::Mot,
            Token::Lru => Token::Lru,
            Token::Mru => Token::Mru,
            Token::Lfu => Token::Lfu,
            Token::Mfu => Token::Mfu,
            Token::Unary => Token::Unary,
            Token::Var => Token::Var,
            Token::Str(s) => Token::Str(s.clone()),
        }
    }
}

impl PartialEq for Token {
    fn eq(&self, other: &Token) -> (r: bool) {
        match (self, other) {
            (Token::Binary, Token::Binary) => true,
            (Token::Bang, Token::Bang) => true,
            (Token::Comma, Token::Comma) => true,
            (Token::Colon, Token::Colon) => true,
            (Token::Comment, Token::Comment) => true,
            (Token::Fn, Token::Fn) => true,
            (Token::Else, Token::Else) => true,
            (Token::EOF, Token::EOF) => true,
            (Token::Extern, Token::Extern) => true,
            (Token::For, Token::For) => true,
            (Token::Ident(a), Token::Ident(b)) => *a == *b,
            (Token::If, Token::If) => true,
            (Token::In, Token::In) => true,
            (Token::Number(a), Token::Number(b)) => *a == *b,
            (Token::Op(a), Token::Op(b)) => *a == *b,
            (Token::LBrace, Token::LBrace) => true,
            (Token::RBrace, Token::RBrace) => true,
            (Token::LParen, Token::LParen) => true,
            (Token::RParen, Token::RParen) => true,
            (Token::Then, Token::Then) => true,
            (Token::Mot, Token::Mot) => true,
            (Token::Lru, Token::Lru) => true,
            (Token::Mru, Token::Mru) => true,
            (Token::Lfu, Token::Lfu) => true,
            (Token::Mfu, Token::Mfu) => true,
            (Token::Unary, Token::Unary) => true,
            (Token::Var, Token::Var) => true,
            (Token::Str(a), Token::Str(b)) => *a == *b,
            _ => false,
        }
    }
}

impl vstd::std_specs::cmp::PartialEqSpecImpl for Token {
    open spec fn obeys_eq_spec() -> bool {
        true
    }

    open spec fn eq_spec(&self, other: &Token) -> bool {
        self@ == other@
    }
}

// ------------------------------------------------------------------
// Lex errors
// ------------------------------------------------------------------

/// An error encountered by the `Lexer`: a message and a best-effort
/// offset, in characters, into the input.
#[derive(Debug)]
pub struct LexError {
    pub error: &'static str,
    pub index: usize,
}

impl LexError {
    pub fn new(msg: &'static str) -> (r: LexError)
        ensures
            r.error == msg,
            r.index == 0,
    {
        LexError { error: msg, index: 0 }
    }

    pub fn with_index(msg: &'static str, index: usize) -> (r: LexError)
        ensures
            r.error == msg,
            r.index == index,
    {
        LexError { error: msg, index }
    }
}

/// The result of one lexing step: a `Token` on success, or a `LexError`.
pub type LexResult = Result<Token, LexError>;

// ------------------------------------------------------------------
// Character classes
// ------------------------------------------------------------------

/// Whether a character has the Unicode White_Space property.
pub uninterp spec fn is_space_char(c: char) -> bool;

/// Relies on char::is_whitespace of std: whether a character has the
/// Unicode White_Space property is a fact of the character alone.
#[verifier::external_body]
fn char_is_space(c: char) -> (r: bool)
    ensures
        r == is_space_char(c),
{
    c.is_whitespace()
}

/// Whether a character is Unicode-alphanumeric.
pub uninterp spec fn is_alnum_char(c: char) -> bool;

/// Relies on char::is_alphanumeric of std: whether a character is
/// alphanumeric is a fact of the character alone.
#[verifier::external_body]
fn char_is_alnum(c: char) -> (r: bool)
    ensures
        r == is_alnum_char(c),
{
    c.is_alphanumeric()
}

pub open spec fn is_digit_char(c: char) -> bool {
    '0' as u32 <= c as u32 && c as u32 <= '9' as u32
}

pub open spec fn is_hex_digit_char(c: char) -> bool {
    is_digit_char(c) || ('a' as u32 <= c as u32 && c as u32 <= 'f' as u32) || ('A' as u32 <= c
        as u32 && c as u32 <= 'F' as u32)
}

pub open spec fn is_ident_start_char(c: char) -> bool {
    c == '_' || ('a' as u32 <= c as u32 && c as u32 <= 'z' as u32) || ('A' as u32 <= c as u32 && c
        as u32 <= 'Z' as u32)
}

/// Whether a character may continue an identifier. The original grammar
/// keeps an identifier going on underscores and alphanumerics; a comma
/// ends it, so that comma-separated lists lex as separate tokens.
pub open spec fn is_ident_cont_char(c: char) -> bool {
    c == '_' || is_alnum_char(c)
}

fn exec_is_digit(c: char) -> (r: bool)
    ensures
        r == is_digit_char(c),
{
    '0' as u32 <= c as u32 && c as u32 <= '9' as u32
}

fn exec_is_hex_digit(c: char) -> (r: bool)
    ensures
        r == is_hex_digit_char(c),
{
    exec_is_digit(c) || ('a' as u32 <= c as u32 && c as u32 <= 'f' as u32) || ('A' as u32 <= c
        as u32 && c as u32 <= 'F' as u32)
}

fn exec_is_ident_start(c: char) -> (r: bool)
    ensures
        r == is_ident_start_char(c),
{
    c == '_' || ('a' as u32 <= c as u32 && c as u32 <= 'z' as u32) || ('A' as u32 <= c as u32 && c
        as u32 <= 'Z' as u32)
}

fn exec_is_ident_cont(c: char) -> (r: bool)
    ensures
        r == is_ident_cont_char(c),
{
    c == '_' || char_is_alnum(c)
}

// ------------------------------------------------------------------
// The lexing function, specified
// ------------------------------------------------------------------

/// The position of the first non-whitespace character at or after `pos`.
pub open spec fn skip_ws(s: Seq<char>, pos: nat) -> nat
    decreases s.len() - pos,
    when pos <= s.len()
{
    if pos >= s.len() {
        pos
    } else if is_space_char(s[pos as int]) {
        skip_ws(s, pos + 1)
    } else {
        pos
    }
}

/// The end of a numeric literal that continues at `pos`: the scanner
/// greedily takes `.` and hexadecimal digits.
pub open spec fn scan_num_end(s: Seq<char>, pos: nat) -> nat
    decreases s.len() - pos,
    when pos <= s.len()
{
    if pos >= s.len() {
        pos
    } else if s[pos as int] == '.' || is_hex_digit_char(s[pos as int]) {
        scan_num_end(s, pos + 1)
    } else {
        pos
    }
}

/// The end of an identifier or keyword that continues at `pos`.
pub open spec fn scan_word_end(s: Seq<char>, pos: nat) -> nat
    decreases s.len() - pos,
    when pos <= s.len()
{
    if pos >= s.len() {
        pos
    } else if is_ident_cont_char(s[pos as int]) {
        scan_word_end(s, pos + 1)
    } else {
        pos
    }
}

/// The end of a `//` comment scanned from `pos`: just after the next
/// newline, or the end of the input.
pub open spec fn scan_line_end(s: Seq<char>, pos: nat) -> nat
    decreases s.len() - pos,
    when pos <= s.len()
{
    if pos >= s.len() {
        pos
    } else if s[pos as int] == '\n' {
        pos + 1
    } else {
        scan_line_end(s, pos + 1)
    }
}

/// The end of a `/* ... */` comment scanned from `pos`: just after the
/// closing `*/`, or the end of the input.
pub open spec fn scan_block_end(s: Seq<char>, pos: nat) -> nat
    decreases s.len() - pos,
    when pos <= s.len()
{
    if pos >= s.len() {
        pos
    } else if s[pos as int] == '*' && pos + 1 < s.len() && s[pos as int + 1] == '/' {
        pos + 2
    } else {
        scan_block_end(s, pos + 1)
    }
}

/// What an escape introducer `\` followed by `c` decodes to, if anything.
pub open spec fn escape_char(c: char) -> Option<char> {
    if c == '\\' {
        Option::Some('\\')
    } else if c == 'n' {
        Option::Some('\n')
    } else if c == 't' {
        Option::Some('\t')
    } else if c == 'r' {
        Option::Some('\r')
    } else if c == '"' {
        Option::Some('"')
    } else if c == '\'' {
        Option::Some('\'')
    } else if c == '0' {
        Option::Some('\u{0}')
    } else {
        Option::None
    }
}

/// One character read out of a string literal.
pub enum EscOut {
    Got { c: char, end: nat },
    Fail { msg: Seq<char>, at: nat },
}

/// Reading one possibly escaped character at `pos`.
pub open spec fn spec_read_escaped(s: Seq<char>, pos: nat) -> EscOut {
    if pos >= s.len() {
        EscOut::Fail { msg: "no input"@, at: s.len() }
    } else if s[pos as int] == '\\' {
        if pos + 1 >= s.len() {
            EscOut::Fail { msg: "no input"@, at: s.len() }
        } else {
            match escape_char(s[pos as int + 1]) {
                Option::Some(c) => EscOut::Got { c, end: pos + 2 },
                Option::None => EscOut::Fail { msg: "unknown escape char"@, at: pos + 1 },
            }
        }
    } else {
        EscOut::Got { c: s[pos as int], end: pos + 1 }
    }
}

/// The rest of a string literal scanned from `pos` (just after the
/// opening quote), with `acc` the characters decoded so far.
pub enum StrScan {
    Done { text: Seq<char>, end: nat },
    Fail { msg: Seq<char>, at: nat },
}

pub open spec fn scan_string(s: Seq<char>, pos: nat, acc: Seq<char>) -> StrScan
    decreases s.len() - pos,
    when pos <= s.len()
{
    if pos >= s.len() {
        StrScan::Fail { msg: "unclosed string"@, at: s.len() }
    } else if s[pos as int] == '"' {
        StrScan::Done { text: acc, end: pos + 1 }
    } else {
        match spec_read_escaped(s, pos) {
            EscOut::Got { c, end } => scan_string(s, end, acc.push(c)),
            EscOut::Fail { msg, at } => StrScan::Fail { msg, at },
        }
    }
}

/// How many `.` characters the first `upto` characters of `t` hold.
pub open spec fn dots_in(t: Seq<char>, upto: int) -> int
    decreases upto,
{
    if upto <= 0 || upto > t.len() {
        0
    } else {
        dots_in(t, upto - 1) + if t[upto - 1] == '.' {
            1int
        } else {
            0int
        }
    }
}

/// How many decimal digits the first `upto` characters of `t` hold.
pub open spec fn digits_in(t: Seq<char>, upto: int) -> int
    decreases upto,
{
    if upto <= 0 || upto > t.len() {
        0
    } else {
        digits_in(t, upto - 1) + if is_digit_char(t[upto - 1]) {
            1int
        } else {
            0int
        }
    }
}

/// A well-formed decimal literal: nonempty, made of decimal digits and
/// at most one `.`, with at least one digit. The scanner captures any
/// run of `.` and hexadecimal digits, and rejects the capture as a lex
/// error when it is not of this form, rather than carrying a literal no
/// decimal reading exists for.
pub open spec fn is_decimal_literal(t: Seq<char>) -> bool {
    &&& t.len() > 0
    &&& forall|i: int| 0 <= i < t.len() ==> is_digit_char(#[trigger] t[i]) || t[i] == '.'
    &&& dots_in(t, t.len() as int) <= 1
    &&& digits_in(t, t.len() as int) >= 1
}

/// The token a scanned word stands for: a keyword where the text
/// matches one, an identifier otherwise.
pub open spec fn word_token(w: Seq<char>) -> TokV {
    if w == "fn"@ {
        TokV::Fn
    } else if w == "extern"@ {
        TokV::Extern
    } else if w == "if"@ {
        TokV::If
    } else if w == "then"@ {
        TokV::Then
    } else if w == "else"@ {
        TokV::Else
    } else if w == "for"@ {
        TokV::For
    } else if w == "in"@ {
        TokV::In
    } else if w == "unary"@ {
        TokV::Unary
    } else if w == "binary"@ {
        TokV::Binary
    } else if w == "var"@ {
        TokV::Var
    } else if w == "mot"@ {
        TokV::Mot
    } else if w == "lru"@ {
        TokV::Lru
    } else if w == "mru"@ {
        TokV::Mru
    } else if w == "lfu"@ {
        TokV::Lfu
    } else if w == "mfu"@ {
        TokV::Mfu
    } else {
        TokV::Ident(w)
    }
}

/// The outcome of one lexing step from `pos`: a token and the position
/// just after it, or a lex failure with its message and offset.
pub enum LexOut {
    Tok { t: TokV, end: nat },
    Fail { msg: Seq<char>, at: nat },
}

/// One lexing step: skip whitespace, then scan one token. A comment
/// is emitted into the stream as an ordinary token; nothing filters
/// it out for the consumer.
pub open spec fn spec_lex(s: Seq<char>, pos: nat) -> LexOut
    recommends
        pos <= s.len(),
{
    let p = skip_ws(s, pos);
    if p >= s.len() {
        LexOut::Tok { t: TokV::EOF, end: p }
    } else {
        let c = s[p as int];
        if c == '(' {
            LexOut::Tok { t: TokV::LParen, end: p + 1 }
        } else if c == ')' {
            LexOut::Tok { t: TokV::RParen, end: p + 1 }
        } else if c == '{' {
            LexOut::Tok { t: TokV::LBrace, end: p + 1 }
        } else if c == '}' {
            LexOut::Tok { t: TokV::RBrace, end: p + 1 }
        } else if c == ',' {
            LexOut::Tok { t: TokV::Comma, end: p + 1 }
        } else if c == '!' {
            LexOut::Tok { t: TokV::Bang, end: p + 1 }
        } else if c == ':' {
            LexOut::Tok { t: TokV::Colon, end: p + 1 }
        } else if c == '"' {
            match scan_string(s, p + 1, Seq::empty()) {
                StrScan::Done { text, end } => LexOut::Tok { t: TokV::Str(text), end },
                StrScan::Fail { msg, at } => LexOut::Fail { msg, at },
            }
        } else if c == '.' || is_digit_char(c) {
            let e = scan_num_end(s, p + 1);
            let text = s.subrange(p as int, e as int);
            if is_decimal_literal(text) {
                LexOut::Tok { t: TokV::Number(text), end: e }
            } else {
                LexOut::Fail { msg: "invalid number literal"@, at: p }
            }
        } else if c == '/' && p + 1 < s.len() && s[p as int + 1] == '/' {
            LexOut::Tok { t: TokV::Comment, end: scan_line_end(s, p + 2) }
        } else if c == '/' && p + 1 < s.len() && s[p as int + 1] == '*' {
            LexOut::Tok { t: TokV::Comment, end: scan_block_end(s, p + 2) }
        } else if is_ident_start_char(c) {
            let e = scan_word_end(s, p + 1);
            LexOut::Tok { t: word_token(s.subrange(p as int, e as int)), end: e }
        } else {
            LexOut::Tok { t: TokV::Op(c), end: p + 1 }
        }
    }
}

// ------------------------------------------------------------------
// Bounds of the scanning functions
// ------------------------------------------------------------------

pub proof fn lemma_skip_ws_bounds(s: Seq<char>, pos: nat)
    requires
        pos <= s.len(),
    ensures
        pos <= skip_ws(s, pos) <= s.len(),
        skip_ws(s, pos) < s.len() ==> !is_space_char(s[skip_ws(s, pos) as int]),
    decreases s.len() - pos,
{
    if pos < s.len() && is_space_char(s[pos as int]) {
        lemma_skip_ws_bounds(s, pos + 1);
    }
}

pub proof fn lemma_scan_num_end_bounds(s: Seq<char>, pos: nat)
    requires
        pos <= s.len(),
    ensures
        pos <= scan_num_end(s, pos) <= s.len(),
    decreases s.len() - pos,
{
    if pos < s.len() && (s[pos as int] == '.' || is_hex_digit_char(s[pos as int])) {
        lemma_scan_num_end_bounds(s, pos + 1);
    }
}

pub proof fn lemma_scan_word_end_bounds(s: Seq<char>, pos: nat)
    requires
        pos <= s.len(),
    ensures
        pos <= scan_word_end(s, pos) <= s.len(),
    decreases s.len() - pos,
{
    if pos < s.len() && is_ident_cont_char(s[pos as int]) {
        lemma_scan_word_end_bounds(s, pos + 1);
    }
}

pub proof fn lemma_scan_line_end_bounds(s: Seq<char>, pos: nat)
    requires
        pos <= s.len(),
    ensures
        pos <= scan_line_end(s, pos) <= s.len(),
    decreases s.len() - pos,
{
    if pos < s.len() && s[pos as int] != '\n' {
        lemma_scan_line_end_bounds(s, pos + 1);
    }
}

pub proof fn lemma_scan_block_end_bounds(s: Seq<char>, pos: nat)
    requires
        pos <= s.len(),
    ensures
        pos <= scan_block_end(s, pos) <= s.len(),
    decreases s.len() - pos,
{
    if pos < s.len() && !(s[pos as int] == '*' && pos + 1 < s.len() && s[pos as int + 1] == '/') {
        lemma_scan_block_end_bounds(s, pos + 1);
    }
}

pub proof fn lemma_scan_string_bounds(s: Seq<char>, pos: nat, acc: Seq<char>)
    requires
        pos <= s.len(),
    ensures
        scan_string(s, pos, acc) matches StrScan::Done { end, .. } ==> pos < end <= s.len(),
        scan_string(s, pos, acc) matches StrScan::Fail { at, .. } ==> at <= s.len(),
    decreases s.len() - pos,
{
    if pos < s.len() && s[pos as int] != '"' {
        match spec_read_escaped(s, pos) {
            EscOut::Got { c, end } => {
                lemma_scan_string_bounds(s, end, acc.push(c));
            },
            EscOut::Fail { .. } => {},
        }
    }
}

/// A lexing step stays within the input: a token other than end-of-input
/// ends past where the step began, end-of-input is reported exactly at
/// the end, and every reported offset lies within the input.
pub proof fn lemma_spec_lex_bounds(s: Seq<char>, pos: nat)
    requires
        pos <= s.len(),
    ensures
        spec_lex(s, pos) matches LexOut::Tok { t, end } ==> pos <= end <= s.len() && (!(t
            is EOF) ==> end > pos) && (t is EOF ==> end == s.len()),
        spec_lex(s, pos) matches LexOut::Fail { at, .. } ==> at <= s.len(),
{
    lemma_skip_ws_bounds(s, pos);
    let p = skip_ws(s, pos);
    if p < s.len() {
        let c = s[p as int];
        lemma_scan_num_end_bounds(s, p + 1);
        lemma_scan_word_end_bounds(s, p + 1);
        if p + 2 <= s.len() {
            lemma_scan_line_end_bounds(s, p + 2);
            lemma_scan_block_end_bounds(s, p + 2);
        }
        if c == '"' {
            lemma_scan_string_bounds(s, p + 1, Seq::empty());
        }
    }
}

// ------------------------------------------------------------------
// The token sequence of an input
// ------------------------------------------------------------------

/// Every token from `pos` to the end of the input, in order. The
/// sequence stops before the end-of-input marker; it also stops at the
/// first lexical failure, which contributes no token.
pub open spec fn spec_tokens_from(s: Seq<char>, pos: nat) -> Seq<TokV>
    decreases s.len() - pos,
    when pos <= s.len() via spec_tokens_from_dec
{
    match spec_lex(s, pos) {
        LexOut::Tok { t, end } => if t is EOF {
            Seq::empty()
        } else {
            seq![t] + spec_tokens_from(s, end)
        },
        LexOut::Fail { .. } => Seq::empty(),
    }
}

#[via_fn]
proof fn spec_tokens_from_dec(s: Seq<char>, pos: nat) {
    lemma_spec_lex_bounds(s, pos);
}

/// The views of a sequence of tokens.
pub open spec fn toks_view(ts: Seq<Token>) -> Seq<TokV> {
    ts.map_values(|t: Token| t@)
}

// ------------------------------------------------------------------
// The executable lexer
// ------------------------------------------------------------------

/// Relies on str's FromIterator of std: collecting characters yields
/// the string of exactly those characters, in order.
#[verifier::external_body]
fn chars_to_string(chars: &Vec<char>, start: usize, end: usize) -> (r: String)
    requires
        start <= end && end <= chars@.len(),
    ensures
        r@ == chars@.subrange(start as int, end as int),
{
    chars[start..end].iter().collect()
}

/// Whether the given range of `chars` spells exactly the word `w`.
fn word_is(chars: &Vec<char>, start: usize, end: usize, w: &str) -> (r: bool)
    requires
        start <= end && end <= chars@.len(),
    ensures
        r == (chars@.subrange(start as int, end as int) == w@),
{
    let wl = w.unicode_len();
    if end - start != wl {
        return false;
    }
    let mut i: usize = 0;
    while i < wl
        invariant
            i <= wl,
            wl == w@.len(),
            start <= end <= chars@.len(),
            end - start == wl,
            forall|j: int| 0 <= j < i ==> chars@[start + j] == w@[j],
        decreases wl - i,
    {
        if chars[start + i] != w.get_char(i) {
            assert(chars@.subrange(start as int, end as int)[i as int] != w@[i as int]);
            return false;
        }
        i = i + 1;
    }
    proof {
        assert(chars@.subrange(start as int, end as int) =~= w@);
    }
    true
}

/// The token a scanned word in `chars` stands for.
fn word_to_token(chars: &Vec<char>, start: usize, end: usize) -> (r: Token)
    requires
        start <= end && end <= chars@.len(),
    ensures
        r@ == word_token(chars@.subrange(start as int, end as int)),
{
    if word_is(chars, start, end, "fn") {
        Token::Fn
    } else if word_is(chars, start, end, "extern") {
        Token::Extern
    } else if word_is(chars, start, end, "if") {
        Token::If
    } else if word_is(chars, start, end, "then") {
        Token::Then
    } else if word_is(chars, start, end, "else") {
        Token::Else
    } else if word_is(chars, start, end, "for") {
        Token::For
    } else if word_is(chars, start, end, "in") {
        Token::In
    } else if word_is(chars, start, end, "unary") {
        Token::Unary
    } else if word_is(chars, start, end, "binary") {
        Token::Binary
    } else if word_is(chars, start, end, "var") {
        Token::Var
    } else if word_is(chars, start, end, "mot") {
        Token::Mot
    } else if word_is(chars, start, end, "lru") {
        Token::Lru
    } else if word_is(chars, start, end, "mru") {
        Token::Mru
    } else if word_is(chars, start, end, "lfu") {
        Token::Lfu
    } else if word_is(chars, start, end, "mfu") {
        Token::Mfu
    } else {
        Token::Ident(chars_to_string(chars, start, end))
    }
}

/// Transforms an input string into a stream of tokens, one lexing step
/// at a time.
pub struct Lexer {
    chars: Vec<char>,
    pos: usize,
}

impl Lexer {
    /// The input, as the sequence of its characters.
    pub closed spec fn src(&self) -> Seq<char> {
        self.chars@
    }

    /// The cursor: how many characters of the input lie behind it.
    pub closed spec fn cursor(&self) -> nat {
        self.pos as nat
    }

    pub open spec fn wf(&self) -> bool {
        self.cursor() <= self.src().len()
    }

    /// Creates a new lexer over the given source text.
    pub fn new(input: &str) -> (r: Lexer)
        ensures
            r.wf(),
            r.src() == input@,
            r.cursor() == 0,
    {
        let n = input.unicode_len();
        let mut chars: Vec<char> = Vec::new();
        let mut i: usize = 0;
        while i < n
            invariant
                i <= n,
                n == input@.len(),
                chars@ == input@.subrange(0, i as int),
            decreases n - i,
        {
            let c = input.get_char(i);
            chars.push(c);
            proof {
                assert(input@.subrange(0, i + 1 as int) =~= input@.subrange(0, i as int).push(
                    input@[i as int],
                ));
            }
            i = i + 1;
        }
        proof {
            assert(input@.subrange(0, n as int) =~= input@);
        }
        Lexer { chars, pos: 0 }
    }

    /// Reads one possibly escaped character of a string literal.
    pub fn read_escaped_char(&mut self) -> (r: Result<char, LexError>)
        requires
            old(self).wf(),
        ensures
            final(self).wf(),
            final(self).src() == old(self).src(),
            match spec_read_escaped(old(self).src(), old(self).cursor()) {
                EscOut::Got { c, end } => r matches Ok(got) && got == c && final(self).cursor()
                    == end,
                EscOut::Fail { msg, at } => r matches Err(e) && e.error@ == msg && e.index == at
                    && final(self).cursor() == old(self).cursor(),
            },
    {
        let n = self.chars.len();
        if self.pos >= n {
            return Err(LexError::with_index("no input", n));
        }
        let c = self.chars[self.pos];
        if c == '\\' {
            if self.pos + 1 >= n {
                return Err(LexError::with_index("no input", n));
            }
            let e = self.chars[self.pos + 1];
            let dec: Option<char> = if e == '\\' {
                Some('\\')
            } else if e == 'n' {
                Some('\n')
            } else if e == 't' {
                Some('\t')
            } else if e == 'r' {
                Some('\r')
            } else if e == '"' {
                Some('"')
            } else if e == '\'' {
                Some('\'')
            } else if e == '0' {
                Some('\u{0}')
            } else {
                None
            };
            match dec {
                Some(d) => {
                    self.pos = self.pos + 2;
                    Ok(d)
                },
                None => Err(LexError::with_index("unknown escape char", self.pos + 1)),
            }
        } else {
            self.pos = self.pos + 1;
            Ok(c)
        }
    }

    /// Lexes and returns the next token from the source.
    #[verifier::loop_isolation(false)]
    pub fn lex(&mut self) -> (r: LexResult)
        requires
            old(self).wf(),
        ensures
            final(self).wf(),
            final(self).src() == old(self).src(),
            final(self).cursor() >= old(self).cursor(),
            match spec_lex(old(self).src(), old(self).cursor()) {
                LexOut::Tok { t, end } => r matches Ok(tok) && tok@ == t && final(self).cursor()
                    == end,
                LexOut::Fail { msg, at } => r matches Err(e) && e.error@ == msg && e.index == at,
            },
    {
        let ghost s = self.chars@;
        let ghost p0 = self.pos as nat;
        let n = self.chars.len();
        while self.pos < n && char_is_space(self.chars[self.pos])
            invariant
                self.chars@ == s,
                p0 <= self.pos as nat <= n as nat,
                skip_ws(s, p0) == skip_ws(s, self.pos as nat),
            decreases n - self.pos,
        {
            self.pos = self.pos + 1;
        }
        assert(skip_ws(s, p0) == self.pos as nat);
        if self.pos >= n {
            return Ok(Token::EOF);
        }
        let start = self.pos;
        let c = self.chars[start];
        self.pos = start + 1;
        if c == '(' {
            Ok(Token::LParen)
        } else if c == ')' {
            Ok(Token::RParen)
        } else if c == '{' {
            Ok(Token::LBrace)
        } else if c == '}' {
            Ok(Token::RBrace)
        } else if c == ',' {
            Ok(Token::Comma)
        } else if c == '!' {
            Ok(Token::Bang)
        } else if c == ':' {
            Ok(Token::Colon)
        } else if c == '"' {
            let mut acc: Vec<char> = Vec::new();
            while self.pos < n && self.chars[self.pos] != '"'
                invariant
                    self.chars@ == s,
                    start + 1 <= self.pos as nat <= n as nat,
                    scan_string(s, (start + 1) as nat, Seq::empty()) == scan_string(
                        s,
                        self.pos as nat,
                        acc@,
                    ),
                decreases n - self.pos,
            {
                match self.read_escaped_char() {
                    Ok(ch) => {
                        acc.push(ch);
                    },
                    Err(e) => {
                        return Err(e);
                    },
                }
            }
            if self.pos >= n {
                return Err(LexError::with_index("unclosed string", n));
            }
            self.pos = self.pos + 1;
            let text = chars_to_string(&acc, 0, acc.len());
            proof {
                assert(acc@.subrange(0, acc@.len() as int) =~= acc@);
            }
            Ok(Token::Str(text))
        } else if c == '.' || exec_is_digit(c) {
            while self.pos < n && (self.chars[self.pos] == '.' || exec_is_hex_digit(
                self.chars[self.pos],
            ))
                invariant
                    self.chars@ == s,
                    start + 1 <= self.pos as nat <= n as nat,
                    scan_num_end(s, (start + 1) as nat) == scan_num_end(s, self.pos as nat),
                decreases n - self.pos,
            {
                self.pos = self.pos + 1;
            }
            assert(self.pos as nat == scan_num_end(s, (start + 1) as nat));
            let e = self.pos;
            let ghost text = s.subrange(start as int, e as int);
            let mut dots: usize = 0;
            let mut digits: usize = 0;
            let mut all_dec = true;
            let mut i = start;
            while i < e
                invariant
                    self.chars@ == s,
                    start <= i <= e,
                    dots as int == dots_in(text, i - start),
                    digits as int == digits_in(text, i - start),
                    dots <= i - start,
                    digits <= i - start,
                    all_dec == (forall|j: int|
                        0 <= j < i - start ==> is_digit_char(#[trigger] text[j]) || text[j] == '.'),
                decreases e - i,
            {
                let d = self.chars[i];
                assert(text[i - start] == d);
                if d == '.' {
                    dots = dots + 1;
                } else if exec_is_digit(d) {
                    digits = digits + 1;
                } else {
                    all_dec = false;
                }
                i = i + 1;
            }
            if all_dec && dots <= 1 && digits >= 1 {
                Ok(Token::Number(chars_to_string(&self.chars, start, e)))
            } else {
                assert(!is_decimal_literal(text));
                Err(LexError::with_index("invalid number literal", start))
            }
        } else if c == '/' && self.pos < n && self.chars[self.pos] == '/' {
            self.pos = self.pos + 1;
            while self.pos < n && self.chars[self.pos] != '\n'
                invariant
                    self.chars@ == s,
                    start + 2 <= self.pos as nat <= n as nat,
                    scan_line_end(s, (start + 2) as nat) == scan_line_end(s, self.pos as nat),
                decreases n - self.pos,
            {
                self.pos = self.pos + 1;
            }
            if self.pos < n {
                self.pos = self.pos + 1;
            }
            Ok(Token::Comment)
        } else if c == '/' && self.pos < n && self.chars[self.pos] == '*' {
            self.pos = self.pos + 1;
            while self.pos < n && !(self.chars[self.pos] == '*' && self.pos + 1 < n
                && self.chars[self.pos + 1] == '/')
                invariant
                    self.chars@ == s,
                    start + 2 <= self.pos as nat <= n as nat,
                    scan_block_end(s, (start + 2) as nat) == scan_block_end(s, self.pos as nat),
                decreases n - self.pos,
            {
                self.pos = self.pos + 1;
            }
            if self.pos < n {
                self.pos = self.pos + 2;
            }
            Ok(Token::Comment)
        } else if exec_is_ident_start(c) {
            while self.pos < n && exec_is_ident_cont(self.chars[self.pos])
                invariant
                    self.chars@ == s,
                    start + 1 <= self.pos as nat <= n as nat,
                    scan_word_end(s, (start + 1) as nat) == scan_word_end(s, self.pos as nat),
                decreases n - self.pos,
            {
                self.pos = self.pos + 1;
            }
            assert(self.pos as nat == scan_word_end(s, (start + 1) as nat));
            Ok(word_to_token(&self.chars, start, self.pos))
        } else {
            Ok(Token::Op(c))
        }
    }

    /// Lexes the next token and returns it; on end of input or on a
    /// lexical failure, yields nothing.
    pub fn next(&mut self) -> (r: Option<Token>)
        requires
            old(self).wf(),
        ensures
            final(self).wf(),
            final(self).src() == old(self).src(),
            match spec_lex(old(self).src(), old(self).cursor()) {
                LexOut::Tok { t, end } => if t is EOF {
                    r is None
                } else {
                    r matches Some(tok) && tok@ == t && final(self).cursor() == end
                },
                LexOut::Fail { .. } => r is None,
            },
            r is Some ==> final(self).cursor() > old(self).cursor(),
            final(self).cursor() >= old(self).cursor(),
    {
        let ghost s = self.chars@;
        let ghost p = self.pos as nat;
        proof {
            lemma_spec_lex_bounds(s, p);
        }
        match self.lex() {
            Ok(t) => match t {
                Token::EOF => None,
                other => Some(other),
            },
            Err(_) => None,
        }
    }

    /// Drains the lexer: every token before the end of the input or the
    /// first lexical failure, in order.
    #[verifier::loop_isolation(false)]
    pub fn tokens(&mut self) -> (r: Vec<Token>)
        requires
            old(self).wf(),
        ensures
            final(self).wf(),
            toks_view(r@) == spec_tokens_from(old(self).src(), old(self).cursor()),
    {
        let ghost s = self.chars@;
        let ghost p0 = self.pos as nat;
        let mut out: Vec<Token> = Vec::new();
        let mut done = false;
        while !done
            invariant
                self.wf(),
                self.chars@ == s,
                p0 <= self.pos as nat,
                spec_tokens_from(s, p0) == toks_view(out@) + (if done {
                    Seq::<TokV>::empty()
                } else {
                    spec_tokens_from(s, self.pos as nat)
                }),
            decreases s.len() - self.pos as nat + (if done {
                0int
            } else {
                1int
            }),
        {
            let ghost pc = self.pos as nat;
            proof {
                lemma_spec_lex_bounds(s, pc);
            }
            match self.next() {
                Some(t) => {
                    proof {
                        assert(toks_view(out@.push(t)) =~= toks_view(out@).push(t@));
                        assert(toks_view(out@).push(t@) + spec_tokens_from(s, self.pos as nat)
                            =~= toks_view(out@) + (seq![t@] + spec_tokens_from(
                            s,
                            self.pos as nat,
                        )));
                    }
                    out.push(t);
                },
                None => {
                    done = true;
                },
            }
        }
        proof {
            assert(toks_view(out@) + Seq::<TokV>::empty() =~= toks_view(out@));
        }
        out
    }
}


// ------------------------------------------------------------------
// Laws
// ------------------------------------------------------------------

proof fn lemma_skip_ws_all_space(s: Seq<char>, pos: nat)
    requires
        pos <= s.len(),
        forall|i: int| pos <= i < s.len() ==> is_space_char(#[trigger] s[i]),
    ensures
        skip_ws(s, pos) == s.len(),
    decreases s.len() - pos,
{
    if pos < s.len() {
        lemma_skip_ws_all_space(s, pos + 1);
    }
}

/// An input consisting solely of whitespace holds no tokens: its token
/// sequence is empty, and a single lexing step on it reports the
/// end-of-input token at the end of the input.
pub proof fn lemma_whitespace_only_lexes_empty(s: Seq<char>)
    requires
        forall|i: int| 0 <= i < s.len() ==> is_space_char(#[trigger] s[i]),
    ensures
        spec_tokens_from(s, 0) == Seq::<TokV>::empty(),
        spec_lex(s, 0) == (LexOut::Tok { t: TokV::EOF, end: s.len() }),
{
    lemma_skip_ws_all_space(s, 0);
}

} // verus!
