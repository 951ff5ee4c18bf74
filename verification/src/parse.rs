use crate::ast::Cache;
use crate::ast::Expr;
use crate::ast::ExprV;
use crate::ast::Function;
use crate::ast::FunctionV;
use crate::ast::ProtoV;
use crate::ast::Prototype;
use crate::ast::expr_view;
use crate::ast::exprs_view;
use crate::ast::lemma_exprs_view_push;
use crate::ast::lemma_vars_view_push;
use crate::ast::params_view;
use crate::ast::vars_view;
use crate::lex::Lexer;
use crate::lex::TokV;
use crate::lex::Token;
use crate::lex::is_digit_char;
use crate::lex::spec_tokens_from;
use crate::lex::toks_view;
use crate::table::PrecTable;
use vstd::prelude::*;

verus! {

// ------------------------------------------------------------------
// Parse errors
// ------------------------------------------------------------------

/// A parse failure. `Expected` names the token the grammar demanded
/// and the token that stood in its place (`Token::EOF` when the input
/// ended); the other variants mirror the grammar rule that failed.
#[derive(Debug, PartialEq)]
pub enum ParseError {
    UnexpectedEof,
    ExtraToken,
    Expected { expected: Token, found: Token },
    ExpectedOperator,
    ExpectedPrototypeName,
    ExpectedParamName,
    ExpectedParamType,
    ExpectedParamSeparator,
    BadDefKeyword,
    ExpectedNumber,
    ExpectedLParen,
    ExpectedRParen,
    ExpectedIdentifier,
    ExpectedCallSeparator,
    InvalidOperator,
    ExpectedThen,
    ExpectedElse,
    ExpectedForIdent,
    ExpectedForEq,
    ExpectedForComma,
    ExpectedForIn,
    ExpectedVarIdent,
    ExpectedVarSeparator,
    UnknownExpr,
}

/// The mathematical value of a `ParseError`.
pub enum ParseErrV {
    UnexpectedEof,
    ExtraToken,
    Expected { expected: TokV, found: TokV },
    ExpectedOperator,
    ExpectedPrototypeName,
    ExpectedParamName,
    ExpectedParamType,
    ExpectedParamSeparator,
    BadDefKeyword,
    ExpectedNumber,
    ExpectedLParen,
    ExpectedRParen,
    ExpectedIdentifier,
    ExpectedCallSeparator,
    InvalidOperator,
    ExpectedThen,
    ExpectedElse,
    ExpectedForIdent,
    ExpectedForEq,
    ExpectedForComma,
    ExpectedForIn,
    ExpectedVarIdent,
    ExpectedVarSeparator,
    UnknownExpr,
}

impl View for ParseError {
    type V = ParseErrV;

    open spec fn view(&self) -> ParseErrV {
        match self {
            ParseError::UnexpectedEof => ParseErrV::UnexpectedEof,
            ParseError::ExtraToken => ParseErrV::ExtraToken,
            ParseError::Expected { expected, found } => ParseErrV::Expected {
                expected: expected@,
                found: found@,
            },
            ParseError::ExpectedOperator => ParseErrV::ExpectedOperator,
            ParseError::ExpectedPrototypeName => ParseErrV::ExpectedPrototypeName,
            ParseError::ExpectedParamName => ParseErrV::ExpectedParamName,
            ParseError::ExpectedParamType => ParseErrV::ExpectedParamType,
            ParseError::ExpectedParamSeparator => ParseErrV::ExpectedParamSeparator,
            ParseError::BadDefKeyword => ParseErrV::BadDefKeyword,
            ParseError::ExpectedNumber => ParseErrV::ExpectedNumber,
            ParseError::ExpectedLParen => ParseErrV::ExpectedLParen,
            ParseError::ExpectedRParen => ParseErrV::ExpectedRParen,
            ParseError::ExpectedIdentifier => ParseErrV::ExpectedIdentifier,
            ParseError::ExpectedCallSeparator => ParseErrV::ExpectedCallSeparator,
            ParseError::InvalidOperator => ParseErrV::InvalidOperator,
            ParseError::ExpectedThen => ParseErrV::ExpectedThen,
            ParseError::ExpectedElse => ParseErrV::ExpectedElse,
            ParseError::ExpectedForIdent => ParseErrV::ExpectedForIdent,
            ParseError::ExpectedForEq => ParseErrV::ExpectedForEq,
            ParseError::ExpectedForComma => ParseErrV::ExpectedForComma,
            ParseError::ExpectedForIn => ParseErrV::ExpectedForIn,
            ParseError::ExpectedVarIdent => ParseErrV::ExpectedVarIdent,
            ParseError::ExpectedVarSeparator => ParseErrV::ExpectedVarSeparator,
            ParseError::UnknownExpr => ParseErrV::UnknownExpr,
        }
    }
}

impl ParseError {
    /// A human-readable description of the failure.
    pub fn message(&self) -> (r: &'static str)
        ensures
            r@ == message_of(self@),
    {
        match self {
            ParseError::UnexpectedEof => "Unexpected end of file.",
            ParseError::ExtraToken => "Unexpected token after parsed expression.",
            ParseError::Expected { .. } => "Expecting a different token.",
            ParseError::ExpectedOperator => "Expected operator in custom operator declaration.",
            ParseError::ExpectedPrototypeName => "Expected identifier in prototype declaration.",
            ParseError::ExpectedParamName => "Expected identifier in parameter declaration.",
            ParseError::ExpectedParamType => "Expected type",
            ParseError::ExpectedParamSeparator => "Expected ',' or ')' character in prototype declaration.",
            ParseError::BadDefKeyword => "Wrong function decl keyword",
            ParseError::ExpectedNumber => "Expected number literal.",
            ParseError::ExpectedLParen => "Expected '(' character at start of parenthesized expression.",
            ParseError::ExpectedRParen => "Expected ')' character at end of parenthesized expression.",
            ParseError::ExpectedIdentifier => "Expected identifier.",
            ParseError::ExpectedCallSeparator => "Expected ',' character in function call.",
            ParseError::InvalidOperator => "Invalid operator.",
            ParseError::ExpectedThen => "Expected 'then' keyword.",
            ParseError::ExpectedElse => "Expected 'else' keyword.",
            ParseError::ExpectedForIdent => "Expected identifier in for loop.",
            ParseError::ExpectedForEq => "Expected '=' character in for loop.",
            ParseError::ExpectedForComma => "Expected ',' character in for loop.",
            ParseError::ExpectedForIn => "Expected 'in' keyword in for loop.",
            ParseError::ExpectedVarIdent => "Expected identifier in 'var..in' declaration.",
            ParseError::ExpectedVarSeparator => "Expected comma or 'in' keyword in variable declaration.",
            ParseError::UnknownExpr => "Unknown expression.",
        }
    }
}

/// The description `message` promises for each failure.
pub open spec fn message_of(e: ParseErrV) -> Seq<char> {
    match e {
        ParseErrV::UnexpectedEof => "Unexpected end of file."@,
        ParseErrV::ExtraToken => "Unexpected token after parsed expression."@,
        ParseErrV::Expected { .. } => "Expecting a different token."@,
        ParseErrV::ExpectedOperator => "Expected operator in custom operator declaration."@,
        ParseErrV::ExpectedPrototypeName => "Expected identifier in prototype declaration."@,
        ParseErrV::ExpectedParamName => "Expected identifier in parameter declaration."@,
        ParseErrV::ExpectedParamType => "Expected type"@,
        ParseErrV::ExpectedParamSeparator => "Expected ',' or ')' character in prototype declaration."@,
        ParseErrV::BadDefKeyword => "Wrong function decl keyword"@,
        ParseErrV::ExpectedNumber => "Expected number literal."@,
        ParseErrV::ExpectedLParen => "Expected '(' character at start of parenthesized expression."@,
        ParseErrV::ExpectedRParen => "Expected ')' character at end of parenthesized expression."@,
        ParseErrV::ExpectedIdentifier => "Expected identifier."@,
        ParseErrV::ExpectedCallSeparator => "Expected ',' character in function call."@,
        ParseErrV::InvalidOperator => "Invalid operator."@,
        ParseErrV::ExpectedThen => "Expected 'then' keyword."@,
        ParseErrV::ExpectedElse => "Expected 'else' keyword."@,
        ParseErrV::ExpectedForIdent => "Expected identifier in for loop."@,
        ParseErrV::ExpectedForEq => "Expected '=' character in for loop."@,
        ParseErrV::ExpectedForComma => "Expected ',' character in for loop."@,
        ParseErrV::ExpectedForIn => "Expected 'in' keyword in for loop."@,
        ParseErrV::ExpectedVarIdent => "Expected identifier in 'var..in' declaration."@,
        ParseErrV::ExpectedVarSeparator => "Expected comma or 'in' keyword in variable declaration."@,
        ParseErrV::UnknownExpr => "Unknown expression."@,
    }
}


/// The view of an optional expression.
pub open spec fn opt_expr_view(s: Option<Expr>) -> Option<ExprV> {
    match s {
        Option::Some(e) => Option::Some(expr_view(e)),
        Option::None => Option::None,
    }
}

// ------------------------------------------------------------------
// Numeric literals, as integers
// ------------------------------------------------------------------

/// The value of the run of decimal digits of `t` from `i` on, started
/// from `acc`; it stops at the first character that is not a digit.
pub open spec fn int_part_from(t: Seq<char>, i: int, acc: int) -> int
    decreases t.len() - i,
{
    if i < 0 || i >= t.len() || !is_digit_char(t[i]) {
        acc
    } else {
        int_part_from(t, i + 1, acc * 10 + (t[i] as u32 - '0' as u32))
    }
}

/// The integer part of a numeric literal: the value of its leading
/// digits. (A literal that starts with `.` has integer part 0.)
pub open spec fn int_part(t: Seq<char>) -> int {
    int_part_from(t, 0, 0)
}

/// `n`, held to at most `cap`. Capacities and precedences read from a
/// literal saturate at the widest value their type can hold.
pub open spec fn clip(n: int, cap: int) -> int {
    if n > cap {
        cap
    } else {
        n
    }
}

proof fn lemma_int_part_from_mono(t: Seq<char>, i: int, acc: int)
    requires
        acc >= 0,
    ensures
        int_part_from(t, i, acc) >= acc,
    decreases t.len() - i,
{
    if !(i < 0 || i >= t.len() || !is_digit_char(t[i])) {
        lemma_int_part_from_mono(t, i + 1, acc * 10 + (t[i] as u32 - '0' as u32));
    }
}

/// The integer part of the literal `t`, saturating at `cap`.
#[verifier::loop_isolation(false)]
fn int_part_capped(t: &String, cap: i128) -> (r: i128)
    requires
        0 <= cap <= u64::MAX as i128,
    ensures
        r as int == clip(int_part(t@), cap as int),
        0 <= r <= cap,
{
    let s = t.as_str();
    let n = s.unicode_len();
    let mut acc: i128 = 0;
    let mut i: usize = 0;
    while i < n
        invariant
            i <= n,
            0 <= acc <= cap,
            int_part(t@) == int_part_from(t@, i as int, acc as int),
        decreases n - i,
    {
        let c = s.get_char(i);
        if !('0' as u32 <= c as u32 && c as u32 <= '9' as u32) {
            return acc;
        }
        let d = (c as u32 - '0' as u32) as i128;
        let next = acc * 10 + d;
        if next > cap {
            proof {
                lemma_int_part_from_mono(t@, i + 1, next as int);
            }
            return cap;
        }
        acc = next;
        i = i + 1;
    }
    acc
}

// ------------------------------------------------------------------
// The grammar, specified
// ------------------------------------------------------------------

/// The outcome of one recursive-descent step: a value and the cursor
/// just after it, or a failure.
pub enum Step<T> {
    Good { v: T, pos: nat },
    Bad { e: ParseErrV },
}

/// `p`, held within `[lo, hi]`. Every parsing step in fact lands
/// inside the stated bounds; pinning the cursor there makes the
/// measure of the mutually recursive grammar functions evident.
pub open spec fn steer_pos(lo: nat, hi: nat, p: nat) -> nat {
    if p < lo {
        lo
    } else if p > hi {
        hi
    } else {
        p
    }
}

/// The binding strength of the token at `pos`: the table's entry for
/// an operator (100 for one the table does not know), and -1 for
/// anything that is not an operator token.
pub open spec fn tok_prec(toks: Seq<TokV>, pos: nat, tab: Map<char, i32>) -> int {
    if pos < toks.len() {
        match toks[pos as int] {
            TokV::Op(c) => if tab.dom().contains(c) {
                tab[c] as int
            } else {
                100
            },
            _ => -1,
        }
    } else {
        -1
    }
}

/// A numeric literal at `pos`, read as a capacity: its integer part,
/// saturating at the widest `isize`.
pub open spec fn spec_parse_number(toks: Seq<TokV>, pos: nat) -> Step<int> {
    if pos < toks.len() {
        match toks[pos as int] {
            TokV::Number(t) => Step::Good { v: clip(int_part(t), isize::MAX as int), pos: pos + 1 },
            _ => Step::Bad { e: ParseErrV::ExpectedNumber },
        }
    } else {
        Step::Bad { e: ParseErrV::ExpectedNumber }
    }
}

/// The capacity clause after a cache keyword at `pos`: `!` followed by
/// a numeric literal gives that literal's value; otherwise -1, for
/// "unspecified".
pub open spec fn spec_cache_capacity(toks: Seq<TokV>, pos: nat) -> Step<int> {
    if pos + 1 >= toks.len() {
        Step::Bad { e: ParseErrV::UnexpectedEof }
    } else if toks[pos as int + 1] is Bang {
        spec_parse_number(toks, pos + 2)
    } else {
        Step::Good { v: -1, pos: pos + 1 }
    }
}

/// A primary expression at `pos`, dispatched on the current token.
pub open spec fn spec_parse_primary(toks: Seq<TokV>, pos: nat, tab: Map<char, i32>) -> Step<ExprV>
    decreases toks.len() - pos, 1int,
    when pos <= toks.len()
{
    if pos >= toks.len() {
        Step::Bad { e: ParseErrV::UnexpectedEof }
    } else {
        match toks[pos as int] {
            TokV::Ident(_) => spec_parse_id(toks, pos, tab),
            TokV::Str(s) => Step::Good { v: ExprV::Str(s), pos: pos + 1 },
            TokV::Number(_) => spec_parse_nb(toks, pos),
            TokV::LParen => spec_parse_paren(toks, pos, tab),
            TokV::If => spec_parse_cond(toks, pos, tab),
            TokV::For => spec_parse_for(toks, pos, tab),
            TokV::Var => spec_parse_var(toks, pos, tab),
            _ => Step::Bad { e: ParseErrV::UnknownExpr },
        }
    }
}

/// A numeric literal at `pos`, as an expression carrying its text.
pub open spec fn spec_parse_nb(toks: Seq<TokV>, pos: nat) -> Step<ExprV> {
    if pos < toks.len() {
        match toks[pos as int] {
            TokV::Number(t) => Step::Good { v: ExprV::Number(t), pos: pos + 1 },
            _ => Step::Bad { e: ParseErrV::ExpectedNumber },
        }
    } else {
        Step::Bad { e: ParseErrV::ExpectedNumber }
    }
}

/// A parenthesized expression at `pos`.
pub open spec fn spec_parse_paren(toks: Seq<TokV>, pos: nat, tab: Map<char, i32>) -> Step<ExprV>
    decreases toks.len() - pos, 0int,
    when pos <= toks.len()
{
    if pos >= toks.len() {
        Step::Bad { e: ParseErrV::UnexpectedEof }
    } else if !(toks[pos as int] is LParen) {
        Step::Bad { e: ParseErrV::ExpectedLParen }
    } else if pos + 1 >= toks.len() {
        Step::Bad { e: ParseErrV::UnexpectedEof }
    } else {
        match spec_parse_expr(toks, pos + 1, tab) {
            Step::Bad { e } => Step::Bad { e },
            Step::Good { v, pos: q0 } => {
                let q = steer_pos(pos + 2, toks.len(), q0);
                if q >= toks.len() {
                    Step::Bad { e: ParseErrV::UnexpectedEof }
                } else if toks[q as int] is RParen {
                    Step::Good { v, pos: q + 1 }
                } else {
                    Step::Bad { e: ParseErrV::ExpectedRParen }
                }
            },
        }
    }
}

/// An expression at `pos` that starts with an identifier: a variable
/// reference, or a call when `(` follows, with a trailing `!` recorded
/// (and consumed) as the call's bang flag.
pub open spec fn spec_parse_id(toks: Seq<TokV>, pos: nat, tab: Map<char, i32>) -> Step<ExprV>
    decreases toks.len() - pos, 0int,
    when pos <= toks.len()
{
    if pos >= toks.len() {
        Step::Bad { e: ParseErrV::ExpectedIdentifier }
    } else {
        match toks[pos as int] {
            TokV::Ident(id) => {
                if pos + 1 >= toks.len() {
                    Step::Good { v: ExprV::Variable(id), pos: pos + 1 }
                } else if toks[pos as int + 1] is LParen {
                    if pos + 2 >= toks.len() {
                        Step::Bad { e: ParseErrV::UnexpectedEof }
                    } else if toks[pos as int + 2] is RParen {
                        if pos + 3 < toks.len() && toks[pos as int + 3] is Bang {
                            Step::Good {
                                v: ExprV::Call { fn_name: id, args: Seq::empty(), bang: true },
                                pos: pos + 4,
                            }
                        } else {
                            Step::Good {
                                v: ExprV::Call { fn_name: id, args: Seq::empty(), bang: false },
                                pos: pos + 3,
                            }
                        }
                    } else {
                        match spec_parse_args(toks, pos + 2, tab, Seq::empty()) {
                            Step::Bad { e } => Step::Bad { e },
                            Step::Good { v: args, pos: q0 } => {
                                let q = steer_pos(pos + 3, toks.len(), q0);
                                if q < toks.len() && toks[q as int] is Bang {
                                    Step::Good {
                                        v: ExprV::Call { fn_name: id, args, bang: true },
                                        pos: q + 1,
                                    }
                                } else {
                                    Step::Good {
                                        v: ExprV::Call { fn_name: id, args, bang: false },
                                        pos: q,
                                    }
                                }
                            },
                        }
                    }
                } else {
                    Step::Good { v: ExprV::Variable(id), pos: pos + 1 }
                }
            },
            _ => Step::Bad { e: ParseErrV::ExpectedIdentifier },
        }
    }
}

/// The comma-separated argument expressions from `pos` up to and
/// including the closing `)`; the step lands just after the `)`.
pub open spec fn spec_parse_args(
    toks: Seq<TokV>,
    pos: nat,
    tab: Map<char, i32>,
    acc: Seq<ExprV>,
) -> Step<Seq<ExprV>>
    decreases toks.len() - pos, 5int,
    when pos <= toks.len()
{
    match spec_parse_expr(toks, pos, tab) {
        Step::Bad { e } => Step::Bad { e },
        Step::Good { v, pos: q0 } => {
            let q = steer_pos(pos + 1, toks.len(), q0);
            let acc2 = acc.push(v);
            if q >= toks.len() {
                Step::Bad { e: ParseErrV::UnexpectedEof }
            } else if toks[q as int] is Comma {
                if q + 1 >= toks.len() {
                    Step::Bad { e: ParseErrV::UnexpectedEof }
                } else {
                    spec_parse_args(toks, q + 1, tab, acc2)
                }
            } else if toks[q as int] is RParen {
                Step::Good { v: acc2, pos: q + 1 }
            } else {
                Step::Bad { e: ParseErrV::ExpectedCallSeparator }
            }
        },
    }
}

/// An `if`/`then`/`else` conditional at `pos`; all three clauses are
/// mandatory.
pub open spec fn spec_parse_cond(toks: Seq<TokV>, pos: nat, tab: Map<char, i32>) -> Step<ExprV>
    decreases toks.len() - pos, 0int,
    when pos <= toks.len()
{
    if pos + 1 >= toks.len() {
        Step::Bad { e: ParseErrV::UnexpectedEof }
    } else {
        match spec_parse_expr(toks, pos + 1, tab) {
            Step::Bad { e } => Step::Bad { e },
            Step::Good { v: cond, pos: q0 } => {
                let q = steer_pos(pos + 2, toks.len(), q0);
                if !(q < toks.len() && toks[q as int] is Then) {
                    Step::Bad { e: ParseErrV::ExpectedThen }
                } else if q + 1 >= toks.len() {
                    Step::Bad { e: ParseErrV::UnexpectedEof }
                } else {
                    match spec_parse_expr(toks, q + 1, tab) {
                        Step::Bad { e } => Step::Bad { e },
                        Step::Good { v: cons, pos: r0 } => {
                            let r = steer_pos(q + 2, toks.len(), r0);
                            if !(r < toks.len() && toks[r as int] is Else) {
                                Step::Bad { e: ParseErrV::ExpectedElse }
                            } else if r + 1 >= toks.len() {
                                Step::Bad { e: ParseErrV::UnexpectedEof }
                            } else {
                                match spec_parse_expr(toks, r + 1, tab) {
                                    Step::Bad { e } => Step::Bad { e },
                                    Step::Good { v: alt, pos: s0 } => Step::Good {
                                        v: ExprV::Conditional {
                                            cond: Box::new(cond),
                                            consequence: Box::new(cons),
                                            alternative: Box::new(alt),
                                        },
                                        pos: steer_pos(r + 2, toks.len(), s0),
                                    },
                                }
                            }
                        },
                    }
                }
            },
        }
    }
}

/// A `for name = start, end [, step] in body` loop at `pos`.
pub open spec fn spec_parse_for(toks: Seq<TokV>, pos: nat, tab: Map<char, i32>) -> Step<ExprV>
    decreases toks.len() - pos, 0int,
    when pos <= toks.len()
{
    if pos + 1 >= toks.len() {
        Step::Bad { e: ParseErrV::UnexpectedEof }
    } else {
        match toks[pos as int + 1] {
            TokV::Ident(name) => {
                if pos + 2 >= toks.len() {
                    Step::Bad { e: ParseErrV::UnexpectedEof }
                } else if !(toks[pos as int + 2] == TokV::Op('=')) {
                    Step::Bad { e: ParseErrV::ExpectedForEq }
                } else if pos + 3 >= toks.len() {
                    Step::Bad { e: ParseErrV::UnexpectedEof }
                } else {
                    match spec_parse_expr(toks, pos + 3, tab) {
                        Step::Bad { e } => Step::Bad { e },
                        Step::Good { v: start, pos: q0 } => {
                            let q = steer_pos(pos + 4, toks.len(), q0);
                            if q >= toks.len() {
                                Step::Bad { e: ParseErrV::UnexpectedEof }
                            } else if !(toks[q as int] is Comma) {
                                Step::Bad { e: ParseErrV::ExpectedForComma }
                            } else if q + 1 >= toks.len() {
                                Step::Bad { e: ParseErrV::UnexpectedEof }
                            } else {
                                match spec_parse_expr(toks, q + 1, tab) {
                                    Step::Bad { e } => Step::Bad { e },
                                    Step::Good { v: end, pos: r0 } => {
                                        let r = steer_pos(q + 2, toks.len(), r0);
                                        if r >= toks.len() {
                                            Step::Bad { e: ParseErrV::UnexpectedEof }
                                        } else if toks[r as int] is Comma {
                                            if r + 1 >= toks.len() {
                                                Step::Bad { e: ParseErrV::UnexpectedEof }
                                            } else {
                                                match spec_parse_expr(toks, r + 1, tab) {
                                                    Step::Bad { e } => Step::Bad { e },
                                                    Step::Good { v: sp, pos: s0 } => {
                                                        let s = steer_pos(
                                                            r + 2,
                                                            toks.len(),
                                                            s0,
                                                        );
                                                        spec_parse_for_tail(
                                                            toks,
                                                            s,
                                                            tab,
                                                            name,
                                                            start,
                                                            end,
                                                            Option::Some(sp),
                                                        )
                                                    },
                                                }
                                            }
                                        } else {
                                            spec_parse_for_tail(
                                                toks,
                                                r,
                                                tab,
                                                name,
                                                start,
                                                end,
                                                Option::None,
                                            )
                                        }
                                    },
                                }
                            }
                        },
                    }
                }
            },
            _ => Step::Bad { e: ParseErrV::ExpectedForIdent },
        }
    }
}

/// The `in body` tail of a `for` loop, from the position of the
/// expected `in`.
pub open spec fn spec_parse_for_tail(
    toks: Seq<TokV>,
    pos: nat,
    tab: Map<char, i32>,
    name: Seq<char>,
    start: ExprV,
    end: ExprV,
    step: Option<ExprV>,
) -> Step<ExprV>
    decreases toks.len() - pos, 6int,
    when pos <= toks.len()
{
    if pos >= toks.len() {
        Step::Bad { e: ParseErrV::UnexpectedEof }
    } else if !(toks[pos as int] is In) {
        Step::Bad { e: ParseErrV::ExpectedForIn }
    } else if pos + 1 >= toks.len() {
        Step::Bad { e: ParseErrV::UnexpectedEof }
    } else {
        match spec_parse_expr(toks, pos + 1, tab) {
            Step::Bad { e } => Step::Bad { e },
            Step::Good { v: body, pos: t0 } => Step::Good {
                v: ExprV::For {
                    var_name: name,
                    start: Box::new(start),
                    end: Box::new(end),
                    step: match step {
                        Option::Some(sp) => Option::Some(Box::new(sp)),
                        Option::None => Option::None,
                    },
                    body: Box::new(body),
                },
                pos: steer_pos(pos + 2, toks.len(), t0),
            },
        }
    }
}

/// A `var ... in body` binding expression at `pos`.
pub open spec fn spec_parse_var(toks: Seq<TokV>, pos: nat, tab: Map<char, i32>) -> Step<ExprV>
    decreases toks.len() - pos, 0int,
    when pos <= toks.len()
{
    if pos + 1 >= toks.len() {
        Step::Bad { e: ParseErrV::UnexpectedEof }
    } else {
        spec_parse_var_list(toks, pos + 1, tab, Seq::empty())
    }
}

/// The binding list of a `var` expression from `pos`: `name` or
/// `name = initializer` entries separated by commas, ended by `in` and
/// the body expression.
pub open spec fn spec_parse_var_list(
    toks: Seq<TokV>,
    pos: nat,
    tab: Map<char, i32>,
    acc: Seq<(Seq<char>, Option<ExprV>)>,
) -> Step<ExprV>
    decreases toks.len() - pos, 7int,
    when pos <= toks.len()
{
    if pos >= toks.len() {
        Step::Bad { e: ParseErrV::ExpectedVarIdent }
    } else {
        match toks[pos as int] {
            TokV::Ident(name) => {
                if pos + 1 >= toks.len() {
                    Step::Bad { e: ParseErrV::UnexpectedEof }
                } else if toks[pos as int + 1] == TokV::Op('=') {
                    if pos + 2 >= toks.len() {
                        Step::Bad { e: ParseErrV::UnexpectedEof }
                    } else {
                        match spec_parse_expr(toks, pos + 2, tab) {
                            Step::Bad { e } => Step::Bad { e },
                            Step::Good { v: iv, pos: q0 } => {
                                let q = steer_pos(pos + 3, toks.len(), q0);
                                spec_parse_var_tail(
                                    toks,
                                    q,
                                    tab,
                                    acc.push((name, Option::Some(iv))),
                                )
                            },
                        }
                    }
                } else {
                    spec_parse_var_tail(toks, pos + 1, tab, acc.push((name, Option::None)))
                }
            },
            _ => Step::Bad { e: ParseErrV::ExpectedVarIdent },
        }
    }
}

/// The separator after one `var` binding: a comma continues the list,
/// `in` introduces the body.
pub open spec fn spec_parse_var_tail(
    toks: Seq<TokV>,
    pos: nat,
    tab: Map<char, i32>,
    acc: Seq<(Seq<char>, Option<ExprV>)>,
) -> Step<ExprV>
    decreases toks.len() - pos, 6int,
    when pos <= toks.len()
{
    if pos >= toks.len() {
        Step::Bad { e: ParseErrV::ExpectedVarSeparator }
    } else if toks[pos as int] is Comma {
        if pos + 1 >= toks.len() {
            Step::Bad { e: ParseErrV::UnexpectedEof }
        } else {
            spec_parse_var_list(toks, pos + 1, tab, acc)
        }
    } else if toks[pos as int] is In {
        if pos + 1 >= toks.len() {
            Step::Bad { e: ParseErrV::UnexpectedEof }
        } else {
            match spec_parse_expr(toks, pos + 1, tab) {
                Step::Bad { e } => Step::Bad { e },
                Step::Good { v: body, pos: r0 } => Step::Good {
                    v: ExprV::VarIn { variables: acc, body: Box::new(body) },
                    pos: steer_pos(pos + 2, toks.len(), r0),
                },
            }
        }
    } else {
        Step::Bad { e: ParseErrV::ExpectedVarSeparator }
    }
}

/// A unary expression at `pos`: a prefix `!` or operator applied to a
/// unary expression becomes a call to the `unary<op>` function;
/// without a prefix operator this is a primary expression.
pub open spec fn spec_parse_unary(toks: Seq<TokV>, pos: nat, tab: Map<char, i32>) -> Step<ExprV>
    decreases toks.len() - pos, 2int,
    when pos <= toks.len()
{
    if pos >= toks.len() {
        Step::Bad { e: ParseErrV::UnexpectedEof }
    } else {
        let op = match toks[pos as int] {
            TokV::Bang => Option::Some('!'),
            TokV::Op(c) => Option::Some(c),
            _ => Option::None,
        };
        match op {
            Option::None => spec_parse_primary(toks, pos, tab),
            Option::Some(c) => {
                if pos + 1 >= toks.len() {
                    Step::Bad { e: ParseErrV::UnexpectedEof }
                } else {
                    match spec_parse_unary(toks, pos + 1, tab) {
                        Step::Bad { e } => Step::Bad { e },
                        Step::Good { v, pos: q } => Step::Good {
                            v: ExprV::Call {
                                fn_name: "unary"@.push(c),
                                args: seq![v],
                                bang: false,
                            },
                            pos: q,
                        },
                    }
                }
            },
        }
    }
}

/// Precedence climbing from `pos`, with `left` already parsed: while
/// the current operator binds at least as strongly as `min`, consume
/// it, parse a right-hand unary expression, absorb any strictly
/// tighter continuation into it, and fold into a Binary node.
/// Equal-precedence operators associate to the left.
pub open spec fn spec_parse_binary(
    toks: Seq<TokV>,
    min: int,
    left: ExprV,
    pos: nat,
    tab: Map<char, i32>,
) -> Step<ExprV>
    decreases toks.len() - pos, 3int,
    when pos <= toks.len()
{
    let cp = tok_prec(toks, pos, tab);
    if cp < min || pos >= toks.len() {
        Step::Good { v: left, pos }
    } else {
        match toks[pos as int] {
            TokV::Op(op) => {
                if pos + 1 >= toks.len() {
                    Step::Bad { e: ParseErrV::UnexpectedEof }
                } else {
                    match spec_parse_unary(toks, pos + 1, tab) {
                        Step::Bad { e } => Step::Bad { e },
                        Step::Good { v: right0, pos: q0 } => {
                            let q = steer_pos(pos + 1, toks.len(), q0);
                            let np = tok_prec(toks, q, tab);
                            if cp < np {
                                match spec_parse_binary(toks, cp + 1, right0, q, tab) {
                                    Step::Bad { e } => Step::Bad { e },
                                    Step::Good { v: right, pos: q1 } => {
                                        let q2 = steer_pos(q, toks.len(), q1);
                                        spec_parse_binary(
                                            toks,
                                            min,
                                            ExprV::Binary {
                                                op,
                                                left: Box::new(left),
                                                right: Box::new(right),
                                            },
                                            q2,
                                            tab,
                                        )
                                    },
                                }
                            } else {
                                spec_parse_binary(
                                    toks,
                                    min,
                                    ExprV::Binary {
                                        op,
                                        left: Box::new(left),
                                        right: Box::new(right0),
                                    },
                                    q,
                                    tab,
                                )
                            }
                        },
                    }
                }
            },
            _ => Step::Bad { e: ParseErrV::InvalidOperator },
        }
    }
}

/// A full expression at `pos`: a unary expression extended by
/// precedence climbing with minimum strength 0.
pub open spec fn spec_parse_expr(toks: Seq<TokV>, pos: nat, tab: Map<char, i32>) -> Step<ExprV>
    decreases toks.len() - pos, 4int,
    when pos <= toks.len()
{
    match spec_parse_unary(toks, pos, tab) {
        Step::Bad { e } => Step::Bad { e },
        Step::Good { v, pos: q0 } => spec_parse_binary(
            toks,
            0,
            v,
            steer_pos(pos, toks.len(), q0),
            tab,
        ),
    }
}

// ------------------------------------------------------------------
// Declarations, specified
// ------------------------------------------------------------------

/// Demanding the exact token `t` at `pos`.
pub open spec fn spec_eat(toks: Seq<TokV>, pos: nat, t: TokV) -> Step<()> {
    if pos >= toks.len() {
        Step::Bad { e: ParseErrV::Expected { expected: t, found: TokV::EOF } }
    } else if toks[pos as int] == t {
        Step::Good { v: (), pos: pos + 1 }
    } else {
        Step::Bad { e: ParseErrV::Expected { expected: t, found: toks[pos as int] } }
    }
}

/// A prototype step: the prototype, the cursor after it, and the
/// precedence table, which a `binary` declaration updates.
pub enum ProtoStep {
    Found { p: ProtoV, pos: nat, tab: Map<char, i32> },
    Failed { e: ParseErrV, tab: Map<char, i32> },
}

/// A top-level unit step: the unit, the cursor after it, and the
/// table as the unit's prototype left it.
pub enum DeclStep {
    Made { f: FunctionV, pos: nat, tab: Map<char, i32> },
    Failed { e: ParseErrV, tab: Map<char, i32> },
}

/// What one parse returns: one unit and the final table, or the first
/// failure and the table as it stood when parsing stopped.
pub enum ParseOut {
    Parsed { f: FunctionV, tab: Map<char, i32> },
    Refused { e: ParseErrV, tab: Map<char, i32> },
}

/// The parenthesized parameter list of a prototype at `pos`, and the
/// prototype it completes.
pub open spec fn spec_proto_params(
    toks: Seq<TokV>,
    pos: nat,
    name: Seq<char>,
    is_op: bool,
    prec: usize,
) -> Step<ProtoV> {
    match spec_eat(toks, pos, TokV::LParen) {
        Step::Bad { e } => Step::Bad { e },
        Step::Good { v: _, pos: q } => {
            if q < toks.len() && toks[q as int] is RParen {
                Step::Good {
                    v: ProtoV { name, args: Seq::empty(), is_op, prec },
                    pos: q + 1,
                }
            } else {
                spec_param_list(toks, q, name, is_op, prec, Seq::empty())
            }
        },
    }
}

/// One `name : type` pair and its separator, continuing a parameter
/// list; `)` completes the prototype.
pub open spec fn spec_param_list(
    toks: Seq<TokV>,
    pos: nat,
    name: Seq<char>,
    is_op: bool,
    prec: usize,
    acc: Seq<(Seq<char>, Seq<char>)>,
) -> Step<ProtoV>
    decreases toks.len() - pos,
    when pos <= toks.len()
{
    if pos >= toks.len() {
        Step::Bad { e: ParseErrV::ExpectedParamName }
    } else {
        match toks[pos as int] {
            TokV::Ident(pname) => {
                match spec_eat(toks, pos + 1, TokV::Colon) {
                    Step::Bad { e } => Step::Bad { e },
                    Step::Good { v: _, pos: r } => {
                        if r >= toks.len() {
                            Step::Bad { e: ParseErrV::ExpectedParamType }
                        } else {
                            match toks[r as int] {
                                TokV::Ident(ty) => {
                                    if r + 1 >= toks.len() {
                                        Step::Bad { e: ParseErrV::UnexpectedEof }
                                    } else {
                                        let acc2 = acc.push((pname, ty));
                                        if toks[r as int + 1] is RParen {
                                            Step::Good {
                                                v: ProtoV { name, args: acc2, is_op, prec },
                                                pos: r + 2,
                                            }
                                        } else if toks[r as int + 1] is Comma {
                                            spec_param_list(toks, r + 2, name, is_op, prec, acc2)
                                        } else {
                                            Step::Bad { e: ParseErrV::ExpectedParamSeparator }
                                        }
                                    }
                                },
                                _ => Step::Bad { e: ParseErrV::ExpectedParamType },
                            }
                        }
                    },
                }
            },
            _ => Step::Bad { e: ParseErrV::ExpectedParamName },
        }
    }
}

/// A prototype at `pos`: a plain name, or a `binary`/`unary` operator
/// declaration. A `binary` declaration writes the declared precedence
/// (0 when none is given) into the table, whether or not the rest of
/// the prototype parses.
pub open spec fn spec_parse_proto(toks: Seq<TokV>, pos: nat, tab: Map<char, i32>) -> ProtoStep {
    if pos >= toks.len() {
        ProtoStep::Failed { e: ParseErrV::UnexpectedEof, tab }
    } else {
        match toks[pos as int] {
            TokV::Ident(id) => {
                if pos + 1 >= toks.len() {
                    ProtoStep::Failed { e: ParseErrV::UnexpectedEof, tab }
                } else {
                    match spec_proto_params(toks, pos + 1, id, false, 0) {
                        Step::Good { v, pos: q } => ProtoStep::Found { p: v, pos: q, tab },
                        Step::Bad { e } => ProtoStep::Failed { e, tab },
                    }
                }
            },
            TokV::Binary => {
                if pos + 1 >= toks.len() {
                    ProtoStep::Failed { e: ParseErrV::UnexpectedEof, tab }
                } else {
                    match toks[pos as int + 1] {
                        TokV::Op(c) => {
                            if pos + 2 >= toks.len() {
                                ProtoStep::Failed { e: ParseErrV::UnexpectedEof, tab }
                            } else {
                                let name = "binary"@.push(c);
                                match toks[pos as int + 2] {
                                    TokV::Number(t) => {
                                        if pos + 3 >= toks.len() {
                                            ProtoStep::Failed { e: ParseErrV::UnexpectedEof, tab }
                                        } else {
                                            let pu = clip(int_part(t), usize::MAX as int) as usize;
                                            let t2 = tab.insert(
                                                c,
                                                clip(int_part(t), i32::MAX as int) as i32,
                                            );
                                            match spec_proto_params(toks, pos + 3, name, true, pu) {
                                                Step::Good { v, pos: q } => ProtoStep::Found {
                                                    p: v,
                                                    pos: q,
                                                    tab: t2,
                                                },
                                                Step::Bad { e } => ProtoStep::Failed { e, tab: t2 },
                                            }
                                        }
                                    },
                                    _ => {
                                        let t2 = tab.insert(c, 0);
                                        match spec_proto_params(toks, pos + 2, name, true, 0) {
                                            Step::Good { v, pos: q } => ProtoStep::Found {
                                                p: v,
                                                pos: q,
                                                tab: t2,
                                            },
                                            Step::Bad { e } => ProtoStep::Failed { e, tab: t2 },
                                        }
                                    },
                                }
                            }
                        },
                        _ => ProtoStep::Failed { e: ParseErrV::ExpectedOperator, tab },
                    }
                }
            },
            TokV::Unary => {
                if pos + 1 >= toks.len() {
                    ProtoStep::Failed { e: ParseErrV::UnexpectedEof, tab }
                } else {
                    match toks[pos as int + 1] {
                        TokV::Op(c) => {
                            if pos + 2 >= toks.len() {
                                ProtoStep::Failed { e: ParseErrV::UnexpectedEof, tab }
                            } else {
                                match spec_proto_params(toks, pos + 2, "unary"@.push(c), true, 0) {
                                    Step::Good { v, pos: q } => ProtoStep::Found {
                                        p: v,
                                        pos: q,
                                        tab,
                                    },
                                    Step::Bad { e } => ProtoStep::Failed { e, tab },
                                }
                            }
                        },
                        _ => ProtoStep::Failed { e: ParseErrV::ExpectedOperator, tab },
                    }
                }
            },
            _ => ProtoStep::Failed { e: ParseErrV::ExpectedPrototypeName, tab },
        }
    }
}

/// A definition body: the prototype at `p`, then the function body
/// enclosed in braces.
pub open spec fn spec_def_body(
    toks: Seq<TokV>,
    p: nat,
    cache: Cache,
    tab: Map<char, i32>,
) -> DeclStep {
    {
        match spec_parse_proto(toks, p, tab) {
            ProtoStep::Failed { e, tab: t2 } => DeclStep::Failed { e, tab: t2 },
            ProtoStep::Found { p, pos: q, tab: t2 } => {
                match spec_eat(toks, q, TokV::LBrace) {
                    Step::Bad { e } => DeclStep::Failed { e, tab: t2 },
                    Step::Good { v: _, pos: b } => {
                        match spec_parse_expr(toks, b, t2) {
                            Step::Bad { e } => DeclStep::Failed { e, tab: t2 },
                            Step::Good { v: body, pos: r0 } => {
                                let r = steer_pos(b + 1, toks.len(), r0);
                                match spec_eat(toks, r, TokV::RBrace) {
                                    Step::Bad { e } => DeclStep::Failed { e, tab: t2 },
                                    Step::Good { v: _, pos: z } => DeclStep::Made {
                                        f: FunctionV {
                                            prototype: p,
                                            body: Option::Some(body),
                                            is_anon: false,
                                            cache,
                                        },
                                        pos: z,
                                        tab: t2,
                                    },
                                }
                            },
                        }
                    },
                }
            },
        }
    }
}

/// The rest of a definition once its cache clause ended at `c`: one
/// token (the `fn` keyword position) is consumed unchecked, then the
/// prototype and the braced body.
pub open spec fn spec_def_tail(toks: Seq<TokV>, c: nat, cache: Cache, tab: Map<char, i32>) -> DeclStep {
    if c + 1 >= toks.len() {
        DeclStep::Failed { e: ParseErrV::UnexpectedEof, tab }
    } else {
        spec_def_body(toks, c + 1, cache, tab)
    }
}

/// A definition at `pos`: a cache clause (`fn` stands for an LRU
/// policy of unspecified capacity), a prototype, and a braced body.
pub open spec fn spec_parse_def(toks: Seq<TokV>, pos: nat, tab: Map<char, i32>) -> DeclStep {
    if pos >= toks.len() {
        DeclStep::Failed { e: ParseErrV::BadDefKeyword, tab }
    } else {
        match toks[pos as int] {
            TokV::Fn => spec_def_tail(toks, pos, Cache::Lru(-1isize as isize), tab),
            TokV::Lru => match spec_cache_capacity(toks, pos) {
                Step::Bad { e } => DeclStep::Failed { e, tab },
                Step::Good { v, pos: q } => spec_def_tail(toks, q, Cache::Lru(v as isize), tab),
            },
            TokV::Mru => match spec_cache_capacity(toks, pos) {
                Step::Bad { e } => DeclStep::Failed { e, tab },
                Step::Good { v, pos: q } => spec_def_tail(toks, q, Cache::Mru(v as isize), tab),
            },
            TokV::Lfu => match spec_cache_capacity(toks, pos) {
                Step::Bad { e } => DeclStep::Failed { e, tab },
                Step::Good { v, pos: q } => spec_def_tail(toks, q, Cache::Lfu(v as isize), tab),
            },
            TokV::Mfu => match spec_cache_capacity(toks, pos) {
                Step::Bad { e } => DeclStep::Failed { e, tab },
                Step::Good { v, pos: q } => spec_def_tail(toks, q, Cache::Mfu(v as isize), tab),
            },
            _ => DeclStep::Failed { e: ParseErrV::BadDefKeyword, tab },
        }
    }
}

/// An external declaration at `pos`: the `extern` keyword and a
/// prototype; no body and no cache policy.
pub open spec fn spec_parse_extern(toks: Seq<TokV>, pos: nat, tab: Map<char, i32>) -> DeclStep {
    match spec_parse_proto(toks, pos + 1, tab) {
        ProtoStep::Failed { e, tab: t2 } => DeclStep::Failed { e, tab: t2 },
        ProtoStep::Found { p, pos: q, tab: t2 } => DeclStep::Made {
            f: FunctionV { prototype: p, body: Option::None, is_anon: false, cache: Cache::Off },
            pos: q,
            tab: t2,
        },
    }
}

/// A bare top-level expression at `pos`, wrapped as an anonymous
/// function with no parameters and no cache policy.
pub open spec fn spec_parse_top(toks: Seq<TokV>, pos: nat, tab: Map<char, i32>) -> DeclStep {
    match spec_parse_expr(toks, pos, tab) {
        Step::Bad { e } => DeclStep::Failed { e, tab },
        Step::Good { v, pos: q } => DeclStep::Made {
            f: FunctionV {
                prototype: ProtoV {
                    name: "anonymous"@,
                    args: Seq::empty(),
                    is_op: false,
                    prec: 0,
                },
                body: Option::Some(v),
                is_anon: true,
                cache: Cache::Off,
            },
            pos: q,
            tab,
        },
    }
}

/// One whole parse from `pos`: the first token picks the production
/// — `fn` or a cache keyword opens a definition, `binary`/`unary`
/// opens an operator definition under the default policy, `extern` an
/// external declaration, and anything else is a bare expression — and
/// any token left over after the production is an error.
pub open spec fn spec_parse(toks: Seq<TokV>, pos: nat, tab: Map<char, i32>) -> ParseOut {
    if pos >= toks.len() {
        ParseOut::Refused { e: ParseErrV::UnexpectedEof, tab }
    } else {
        let d = match toks[pos as int] {
            TokV::Fn | TokV::Lru | TokV::Mru | TokV::Lfu | TokV::Mfu => spec_parse_def(
                toks,
                pos,
                tab,
            ),
            TokV::Binary | TokV::Unary => spec_def_body(toks, pos, Cache::Lru(-1isize), tab),
            TokV::Extern => spec_parse_extern(toks, pos, tab),
            _ => spec_parse_top(toks, pos, tab),
        };
        match d {
            DeclStep::Failed { e, tab: t2 } => ParseOut::Refused { e, tab: t2 },
            DeclStep::Made { f, pos: q, tab: t2 } => if q < toks.len() {
                ParseOut::Refused { e: ParseErrV::ExtraToken, tab: t2 }
            } else {
                ParseOut::Parsed { f, tab: t2 }
            },
        }
    }
}

// ------------------------------------------------------------------
// The executable parser
// ------------------------------------------------------------------

/// Relies on String::push of std: the pushed character is appended to
/// the string's characters.
#[verifier::external_body]
fn push_char(s: &mut String, c: char)
    ensures
        final(s)@ == old(s)@.push(c),
{
    s.push(c)
}

/// The recursive-descent parser: the buffered tokens of one input and
/// a cursor over them. The operator-precedence table is the caller's
/// and is passed to `parse` by exclusive mutable reference.
pub struct Parser {
    tokens: Vec<Token>,
    pos: usize,
}

impl Parser {
    /// The buffered tokens, as their mathematical values.
    pub closed spec fn toks(&self) -> Seq<TokV> {
        toks_view(self.tokens@)
    }

    /// The cursor: how many tokens lie behind it.
    pub closed spec fn cursor(&self) -> nat {
        self.pos as nat
    }

    pub open spec fn wf(&self) -> bool {
        self.cursor() <= self.toks().len()
    }

    /// Creates a parser for the given source text: the whole input is
    /// tokenized eagerly, and the cursor starts at the first token.
    pub fn new(input: String) -> (r: Parser)
        ensures
            r.wf(),
            r.cursor() == 0,
            r.toks() == spec_tokens_from(input@, 0),
    {
        let mut lexer = Lexer::new(input.as_str());
        let tokens = lexer.tokens();
        Parser { tokens, pos: 0 }
    }

    /// The current token, cloned.
    fn curr(&self) -> (r: Token)
        requires
            self.wf(),
            self.cursor() < self.toks().len(),
        ensures
            r@ == self.toks()[self.cursor() as int],
    {
        self.tokens[self.pos].clone()
    }

    /// The current token, or the end-of-file failure past the input.
    fn current(&self) -> (r: Result<Token, ParseError>)
        requires
            self.wf(),
        ensures
            self.cursor() < self.toks().len() ==> (r matches Ok(t) && t@
                == self.toks()[self.cursor() as int]),
            self.cursor() >= self.toks().len() ==> (r matches Err(e) && e@
                == ParseErrV::UnexpectedEof),
    {
        if self.pos >= self.tokens.len() {
            Err(ParseError::UnexpectedEof)
        } else {
            Ok(self.tokens[self.pos].clone())
        }
    }

    /// Moves the cursor one token forward; the failure says that the
    /// cursor then stands at the end of the input.
    fn advance(&mut self) -> (r: Result<(), ParseError>)
        requires
            old(self).wf(),
        ensures
            final(self).wf(),
            final(self).toks() == old(self).toks(),
            final(self).cursor() == if old(self).cursor() + 1 <= old(self).toks().len() {
                old(self).cursor() + 1
            } else {
                old(self).toks().len()
            },
            old(self).cursor() + 1 >= old(self).toks().len() ==> (r matches Err(e) && e@
                == ParseErrV::UnexpectedEof),
            old(self).cursor() + 1 < old(self).toks().len() ==> r is Ok,
    {
        let n = self.tokens.len();
        if self.pos < n {
            self.pos = self.pos + 1;
        }
        if self.pos < n {
            Ok(())
        } else {
            Err(ParseError::UnexpectedEof)
        }
    }

    /// Whether the cursor has reached the end of the input.
    fn at_end(&self) -> (r: bool)
        requires
            self.wf(),
        ensures
            r == (self.cursor() >= self.toks().len()),
    {
        self.pos >= self.tokens.len()
    }

    /// Demands the exact token `token` and steps over it.
    fn eat(&mut self, token: Token) -> (r: Result<(), ParseError>)
        requires
            old(self).wf(),
        ensures
            final(self).wf(),
            final(self).toks() == old(self).toks(),
            match spec_eat(old(self).toks(), old(self).cursor(), token@) {
                Step::Good { v: _, pos } => r is Ok && final(self).cursor() == pos,
                Step::Bad { e } => r matches Err(err) && err@ == e && final(self).cursor()
                    == old(self).cursor(),
            },
    {
        if self.pos >= self.tokens.len() {
            return Err(ParseError::Expected { expected: token, found: Token::EOF });
        }
        let c = self.curr();
        if c == token {
            self.pos = self.pos + 1;
            Ok(())
        } else {
            Err(ParseError::Expected { expected: token, found: c })
        }
    }

    /// The binding strength of the current token: the table's entry
    /// for an operator (100 for one the table does not know), -1 for
    /// anything else.
    fn get_tok_precedence(&self, prec: &PrecTable) -> (r: i32)
        requires
            self.wf(),
        ensures
            r as int == tok_prec(self.toks(), self.cursor(), prec@),
    {
        if self.pos >= self.tokens.len() {
            return -1;
        }
        let c = self.curr();
        match c {
            Token::Op(op) => match prec.get(op) {
                Some(p) => p,
                None => 100,
            },
            _ => -1,
        }
    }

    /// A numeric literal read as a cache capacity: its integer part,
    /// saturating at the widest `isize`.
    fn parse_number(&mut self) -> (r: Result<isize, ParseError>)
        requires
            old(self).wf(),
        ensures
            final(self).wf(),
            final(self).toks() == old(self).toks(),
            match spec_parse_number(old(self).toks(), old(self).cursor()) {
                Step::Good { v, pos } => r matches Ok(x) && x as int == v && final(self).cursor()
                    == pos,
                Step::Bad { e } => r matches Err(err) && err@ == e,
            },
    {
        if self.pos >= self.tokens.len() {
            return Err(ParseError::ExpectedNumber);
        }
        let c = self.curr();
        match c {
            Token::Number(t) => {
                let _ = self.advance();
                let v = int_part_capped(&t, isize::MAX as i128);
                Ok(v as isize)
            },
            _ => Err(ParseError::ExpectedNumber),
        }
    }

    /// The capacity clause after a cache keyword: `!` and a numeric
    /// literal give that literal's value, else -1 for "unspecified".
    fn cache_capacity(&mut self) -> (r: Result<isize, ParseError>)
        requires
            old(self).wf(),
        ensures
            final(self).wf(),
            final(self).toks() == old(self).toks(),
            match spec_cache_capacity(old(self).toks(), old(self).cursor()) {
                Step::Good { v, pos } => r matches Ok(x) && x as int == v && final(self).cursor()
                    == pos,
                Step::Bad { e } => r matches Err(err) && err@ == e,
            },
    {
        if let Err(e) = self.advance() {
            return Err(e);
        }
        let c = self.curr();
        match c {
            Token::Bang => {
                let _ = self.advance();
                self.parse_number()
            },
            _ => Ok(-1),
        }
    }
}

impl Parser {
    /// Any expression: a unary expression extended by precedence
    /// climbing with minimum strength 0.
    fn parse_expr(&mut self, prec: &PrecTable) -> (r: Result<Expr, ParseError>)
        requires
            old(self).wf(),
        ensures
            final(self).wf(),
            final(self).toks() == old(self).toks(),
            match spec_parse_expr(old(self).toks(), old(self).cursor(), prec@) {
                Step::Good { v, pos } => r matches Ok(e) && e@ == v && final(self).cursor() == pos,
                Step::Bad { e } => r matches Err(err) && err@ == e,
            },
            r is Ok ==> final(self).cursor() > old(self).cursor(),
        decreases self.toks().len() - self.cursor(), 4int,
    {
        match self.parse_unary_expr(prec) {
            Ok(left) => self.parse_binary_expr(0, left, prec),
            Err(e) => Err(e),
        }
    }

    /// Precedence climbing, with `left` already parsed.
    fn parse_binary_expr(&mut self, min_prec: i64, left: Expr, prec: &PrecTable) -> (r: Result<
        Expr,
        ParseError,
    >)
        requires
            old(self).wf(),
            0 <= min_prec <= i32::MAX as i64 + 1,
        ensures
            final(self).wf(),
            final(self).toks() == old(self).toks(),
            match spec_parse_binary(
                old(self).toks(),
                min_prec as int,
                expr_view(left),
                old(self).cursor(),
                prec@,
            ) {
                Step::Good { v, pos } => r matches Ok(e) && e@ == v && final(self).cursor() == pos,
                Step::Bad { e } => r matches Err(err) && err@ == e,
            },
            r is Ok ==> final(self).cursor() >= old(self).cursor(),
        decreases self.toks().len() - self.cursor(), 3int,
    {
        let cp = self.get_tok_precedence(prec) as i64;
        if cp < min_prec || self.at_end() {
            return Ok(left);
        }
        let cur = self.curr();
        let op = match cur {
            Token::Op(c) => c,
            _ => {
                return Err(ParseError::InvalidOperator);
            },
        };
        if let Err(e) = self.advance() {
            return Err(e);
        }
        let right0 = match self.parse_unary_expr(prec) {
            Ok(x) => x,
            Err(e) => {
                return Err(e);
            },
        };
        let np = self.get_tok_precedence(prec) as i64;
        let right = if cp < np {
            match self.parse_binary_expr(cp + 1, right0, prec) {
                Ok(x) => x,
                Err(e) => {
                    return Err(e);
                },
            }
        } else {
            right0
        };
        let combined = Expr::Binary { op, left: Box::new(left), right: Box::new(right) };
        self.parse_binary_expr(min_prec, combined, prec)
    }

    /// A unary expression: a prefix `!` or operator becomes a call to
    /// the matching `unary<op>` function.
    fn parse_unary_expr(&mut self, prec: &PrecTable) -> (r: Result<Expr, ParseError>)
        requires
            old(self).wf(),
        ensures
            final(self).wf(),
            final(self).toks() == old(self).toks(),
            match spec_parse_unary(old(self).toks(), old(self).cursor(), prec@) {
                Step::Good { v, pos } => r matches Ok(e) && e@ == v && final(self).cursor() == pos,
                Step::Bad { e } => r matches Err(err) && err@ == e,
            },
            r is Ok ==> final(self).cursor() > old(self).cursor(),
        decreases self.toks().len() - self.cursor(), 2int,
    {
        let cur = match self.current() {
            Ok(t) => t,
            Err(e) => {
                return Err(e);
            },
        };
        let op: char;
        match cur {
            Token::Bang => {
                op = '!';
            },
            Token::Op(c) => {
                op = c;
            },
            _ => {
                return self.parse_primary(prec);
            },
        }
        if let Err(e) = self.advance() {
            return Err(e);
        }
        let operand = match self.parse_unary_expr(prec) {
            Ok(x) => x,
            Err(e) => {
                return Err(e);
            },
        };
        let mut name = String::from_str("unary");
        push_char(&mut name, op);
        let ghost ov = expr_view(operand);
        let mut args: Vec<Expr> = Vec::new();
        proof {
            lemma_exprs_view_push(Seq::<Expr>::empty(), operand);
            assert(exprs_view(Seq::<Expr>::empty()) =~= Seq::<ExprV>::empty());
            assert(Seq::<ExprV>::empty().push(ov) =~= seq![ov]);
        }
        args.push(operand);
        Ok(Expr::Call { fn_name: name, args, bang: false })
    }

    /// A primary expression, dispatched on the current token.
    #[verifier::rlimit(50)]
    fn parse_primary(&mut self, prec: &PrecTable) -> (r: Result<Expr, ParseError>)
        requires
            old(self).wf(),
        ensures
            final(self).wf(),
            final(self).toks() == old(self).toks(),
            match spec_parse_primary(old(self).toks(), old(self).cursor(), prec@) {
                Step::Good { v, pos } => r matches Ok(e) && e@ == v && final(self).cursor() == pos,
                Step::Bad { e } => r matches Err(err) && err@ == e,
            },
            r is Ok ==> final(self).cursor() > old(self).cursor(),
        decreases self.toks().len() - self.cursor(), 1int,
    {
        if self.pos >= self.tokens.len() {
            return Err(ParseError::UnexpectedEof);
        }
        let cur = self.curr();
        match cur {
            Token::Ident(_) => self.parse_id_expr(prec),
            Token::Str(st) => {
                let _ = self.advance();
                Ok(Expr::Str(st))
            },
            Token::Number(_) => self.parse_nb_expr(),
            Token::LParen => self.parse_paren_expr(prec),
            Token::If => self.parse_conditional_expr(prec),
            Token::For => self.parse_for_expr(prec),
            Token::Var => self.parse_var_expr(prec),
            _ => Err(ParseError::UnknownExpr),
        }
    }

    /// A numeric literal, as an expression carrying its text.
    fn parse_nb_expr(&mut self) -> (r: Result<Expr, ParseError>)
        requires
            old(self).wf(),
        ensures
            final(self).wf(),
            final(self).toks() == old(self).toks(),
            match spec_parse_nb(old(self).toks(), old(self).cursor()) {
                Step::Good { v, pos } => r matches Ok(e) && e@ == v && final(self).cursor() == pos,
                Step::Bad { e } => r matches Err(err) && err@ == e,
            },
            r is Ok ==> final(self).cursor() > old(self).cursor(),
    {
        if self.pos >= self.tokens.len() {
            return Err(ParseError::ExpectedNumber);
        }
        let cur = self.curr();
        match cur {
            Token::Number(t) => {
                let _ = self.advance();
                Ok(Expr::Number(t))
            },
            _ => Err(ParseError::ExpectedNumber),
        }
    }

    /// A parenthesized expression.
    fn parse_paren_expr(&mut self, prec: &PrecTable) -> (r: Result<Expr, ParseError>)
        requires
            old(self).wf(),
        ensures
            final(self).wf(),
            final(self).toks() == old(self).toks(),
            match spec_parse_paren(old(self).toks(), old(self).cursor(), prec@) {
                Step::Good { v, pos } => r matches Ok(e) && e@ == v && final(self).cursor() == pos,
                Step::Bad { e } => r matches Err(err) && err@ == e,
            },
            r is Ok ==> final(self).cursor() > old(self).cursor(),
        decreases self.toks().len() - self.cursor(), 0int,
    {
        if self.pos >= self.tokens.len() {
            return Err(ParseError::UnexpectedEof);
        }
        let is_lp = match self.curr() {
            Token::LParen => true,
            _ => false,
        };
        if !is_lp {
            return Err(ParseError::ExpectedLParen);
        }
        if let Err(e) = self.advance() {
            return Err(e);
        }
        let v = match self.parse_expr(prec) {
            Ok(x) => x,
            Err(e) => {
                return Err(e);
            },
        };
        if self.pos >= self.tokens.len() {
            return Err(ParseError::UnexpectedEof);
        }
        let is_rp = match self.curr() {
            Token::RParen => true,
            _ => false,
        };
        if !is_rp {
            return Err(ParseError::ExpectedRParen);
        }
        let _ = self.advance();
        Ok(v)
    }

    /// An expression that starts with an identifier: a variable
    /// reference, or a call with an optional trailing `!`.
    fn parse_id_expr(&mut self, prec: &PrecTable) -> (r: Result<Expr, ParseError>)
        requires
            old(self).wf(),
        ensures
            final(self).wf(),
            final(self).toks() == old(self).toks(),
            match spec_parse_id(old(self).toks(), old(self).cursor(), prec@) {
                Step::Good { v, pos } => r matches Ok(e) && e@ == v && final(self).cursor() == pos,
                Step::Bad { e } => r matches Err(err) && err@ == e,
            },
            r is Ok ==> final(self).cursor() > old(self).cursor(),
        decreases self.toks().len() - self.cursor(), 0int,
    {
        if self.pos >= self.tokens.len() {
            return Err(ParseError::ExpectedIdentifier);
        }
        let cur = self.curr();
        let id = match cur {
            Token::Ident(n) => n,
            _ => {
                return Err(ParseError::ExpectedIdentifier);
            },
        };
        if self.advance().is_err() {
            return Ok(Expr::Variable(id));
        }
        let is_lp = match self.curr() {
            Token::LParen => true,
            _ => false,
        };
        if !is_lp {
            return Ok(Expr::Variable(id));
        }
        if let Err(e) = self.advance() {
            return Err(e);
        }
        let is_rp = match self.curr() {
            Token::RParen => true,
            _ => false,
        };
        proof {
            assert(exprs_view(Seq::<Expr>::empty()) =~= Seq::<ExprV>::empty());
        }
        if is_rp {
            let _ = self.advance();
            if self.pos < self.tokens.len() {
                let is_bang = match self.curr() {
                    Token::Bang => true,
                    _ => false,
                };
                if is_bang {
                    let _ = self.advance();
                    return Ok(Expr::Call { fn_name: id, args: Vec::new(), bang: true });
                }
            }
            return Ok(Expr::Call { fn_name: id, args: Vec::new(), bang: false });
        }
        let args = match self.parse_call_args(Vec::new(), prec) {
            Ok(a) => a,
            Err(e) => {
                return Err(e);
            },
        };
        if self.pos < self.tokens.len() {
            let is_bang = match self.curr() {
                Token::Bang => true,
                _ => false,
            };
            if is_bang {
                let _ = self.advance();
                return Ok(Expr::Call { fn_name: id, args, bang: true });
            }
        }
        Ok(Expr::Call { fn_name: id, args, bang: false })
    }

    /// The comma-separated call arguments up to and including the
    /// closing `)`.
    fn parse_call_args(&mut self, acc: Vec<Expr>, prec: &PrecTable) -> (r: Result<
        Vec<Expr>,
        ParseError,
    >)
        requires
            old(self).wf(),
        ensures
            final(self).wf(),
            final(self).toks() == old(self).toks(),
            match spec_parse_args(old(self).toks(), old(self).cursor(), prec@, exprs_view(acc@)) {
                Step::Good { v, pos } => r matches Ok(out) && exprs_view(out@) == v
                    && final(self).cursor() == pos,
                Step::Bad { e } => r matches Err(err) && err@ == e,
            },
            r is Ok ==> final(self).cursor() > old(self).cursor(),
        decreases self.toks().len() - self.cursor(), 5int,
    {
        let ghost accv = acc@;
        let e = match self.parse_expr(prec) {
            Ok(x) => x,
            Err(er) => {
                return Err(er);
            },
        };
        proof {
            lemma_exprs_view_push(accv, e);
        }
        let mut acc2 = acc;
        acc2.push(e);
        if self.pos >= self.tokens.len() {
            return Err(ParseError::UnexpectedEof);
        }
        let cur = self.curr();
        match cur {
            Token::Comma => {
                if let Err(er) = self.advance() {
                    return Err(er);
                }
                self.parse_call_args(acc2, prec)
            },
            Token::RParen => {
                let _ = self.advance();
                Ok(acc2)
            },
            _ => Err(ParseError::ExpectedCallSeparator),
        }
    }

    /// An `if`/`then`/`else` conditional; all three clauses are
    /// mandatory.
    #[verifier::rlimit(50)]
    fn parse_conditional_expr(&mut self, prec: &PrecTable) -> (r: Result<Expr, ParseError>)
        requires
            old(self).wf(),
        ensures
            final(self).wf(),
            final(self).toks() == old(self).toks(),
            match spec_parse_cond(old(self).toks(), old(self).cursor(), prec@) {
                Step::Good { v, pos } => r matches Ok(e) && e@ == v && final(self).cursor() == pos,
                Step::Bad { e } => r matches Err(err) && err@ == e,
            },
            r is Ok ==> final(self).cursor() > old(self).cursor(),
        decreases self.toks().len() - self.cursor(), 0int,
    {
        if let Err(e) = self.advance() {
            return Err(e);
        }
        let cond = match self.parse_expr(prec) {
            Ok(x) => x,
            Err(e) => {
                return Err(e);
            },
        };
        let ok_then = if self.pos < self.tokens.len() {
            match self.curr() {
                Token::Then => true,
                _ => false,
            }
        } else {
            false
        };
        if !ok_then {
            return Err(ParseError::ExpectedThen);
        }
        if let Err(e) = self.advance() {
            return Err(e);
        }
        let cons = match self.parse_expr(prec) {
            Ok(x) => x,
            Err(e) => {
                return Err(e);
            },
        };
        let ok_else = if self.pos < self.tokens.len() {
            match self.curr() {
                Token::Else => true,
                _ => false,
            }
        } else {
            false
        };
        if !ok_else {
            return Err(ParseError::ExpectedElse);
        }
        if let Err(e) = self.advance() {
            return Err(e);
        }
        let alt = match self.parse_expr(prec) {
            Ok(x) => x,
            Err(e) => {
                return Err(e);
            },
        };
        Ok(
            Expr::Conditional {
                cond: Box::new(cond),
                consequence: Box::new(cons),
                alternative: Box::new(alt),
            },
        )
    }

    /// A `for name = start, end [, step] in body` loop.
    #[verifier::rlimit(80)]
    fn parse_for_expr(&mut self, prec: &PrecTable) -> (r: Result<Expr, ParseError>)
        requires
            old(self).wf(),
        ensures
            final(self).wf(),
            final(self).toks() == old(self).toks(),
            match spec_parse_for(old(self).toks(), old(self).cursor(), prec@) {
                Step::Good { v, pos } => r matches Ok(e) && e@ == v && final(self).cursor() == pos,
                Step::Bad { e } => r matches Err(err) && err@ == e,
            },
            r is Ok ==> final(self).cursor() > old(self).cursor(),
        decreases self.toks().len() - self.cursor(), 0int,
    {
        if let Err(e) = self.advance() {
            return Err(e);
        }
        let name = match self.curr() {
            Token::Ident(n) => n,
            _ => {
                return Err(ParseError::ExpectedForIdent);
            },
        };
        if let Err(e) = self.advance() {
            return Err(e);
        }
        let is_eq = match self.curr() {
            Token::Op(c) => c == '=',
            _ => false,
        };
        if !is_eq {
            return Err(ParseError::ExpectedForEq);
        }
        if let Err(e) = self.advance() {
            return Err(e);
        }
        let start = match self.parse_expr(prec) {
            Ok(x) => x,
            Err(e) => {
                return Err(e);
            },
        };
        if self.pos >= self.tokens.len() {
            return Err(ParseError::UnexpectedEof);
        }
        let is_c = match self.curr() {
            Token::Comma => true,
            _ => false,
        };
        if !is_c {
            return Err(ParseError::ExpectedForComma);
        }
        if let Err(e) = self.advance() {
            return Err(e);
        }
        let end_e = match self.parse_expr(prec) {
            Ok(x) => x,
            Err(e) => {
                return Err(e);
            },
        };
        if self.pos >= self.tokens.len() {
            return Err(ParseError::UnexpectedEof);
        }
        let has_step = match self.curr() {
            Token::Comma => true,
            _ => false,
        };
        if has_step {
            if let Err(e) = self.advance() {
                return Err(e);
            }
            let sp = match self.parse_expr(prec) {
                Ok(x) => x,
                Err(e) => {
                    return Err(e);
                },
            };
            self.parse_for_tail(name, start, end_e, Some(sp), prec)
        } else {
            self.parse_for_tail(name, start, end_e, None, prec)
        }
    }

    /// The `in body` tail of a `for` loop.
    fn parse_for_tail(
        &mut self,
        name: String,
        start: Expr,
        end_e: Expr,
        step: Option<Expr>,
        prec: &PrecTable,
    ) -> (r: Result<Expr, ParseError>)
        requires
            old(self).wf(),
        ensures
            final(self).wf(),
            final(self).toks() == old(self).toks(),
            match spec_parse_for_tail(
                old(self).toks(),
                old(self).cursor(),
                prec@,
                name@,
                expr_view(start),
                expr_view(end_e),
                opt_expr_view(step),
            ) {
                Step::Good { v, pos } => r matches Ok(e) && e@ == v && final(self).cursor() == pos,
                Step::Bad { e } => r matches Err(err) && err@ == e,
            },
            r is Ok ==> final(self).cursor() > old(self).cursor(),
        decreases self.toks().len() - self.cursor(), 6int,
    {
        if self.pos >= self.tokens.len() {
            return Err(ParseError::UnexpectedEof);
        }
        let is_in = match self.curr() {
            Token::In => true,
            _ => false,
        };
        if !is_in {
            return Err(ParseError::ExpectedForIn);
        }
        if let Err(e) = self.advance() {
            return Err(e);
        }
        let body = match self.parse_expr(prec) {
            Ok(x) => x,
            Err(e) => {
                return Err(e);
            },
        };
        Ok(
            Expr::For {
                var_name: name,
                start: Box::new(start),
                end: Box::new(end_e),
                step: match step {
                    Some(e) => Some(Box::new(e)),
                    None => None,
                },
                body: Box::new(body),
            },
        )
    }

    /// A `var ... in body` binding expression.
    fn parse_var_expr(&mut self, prec: &PrecTable) -> (r: Result<Expr, ParseError>)
        requires
            old(self).wf(),
        ensures
            final(self).wf(),
            final(self).toks() == old(self).toks(),
            match spec_parse_var(old(self).toks(), old(self).cursor(), prec@) {
                Step::Good { v, pos } => r matches Ok(e) && e@ == v && final(self).cursor() == pos,
                Step::Bad { e } => r matches Err(err) && err@ == e,
            },
            r is Ok ==> final(self).cursor() > old(self).cursor(),
        decreases self.toks().len() - self.cursor(), 0int,
    {
        if let Err(e) = self.advance() {
            return Err(e);
        }
        proof {
            assert(vars_view(Seq::<(String, Option<Expr>)>::empty()) =~= Seq::<(
                Seq<char>,
                Option<ExprV>,
            )>::empty());
        }
        self.parse_var_list(Vec::new(), prec)
    }

    /// One binding of a `var` expression, and what follows it.
    fn parse_var_list(&mut self, acc: Vec<(String, Option<Expr>)>, prec: &PrecTable) -> (r: Result<
        Expr,
        ParseError,
    >)
        requires
            old(self).wf(),
        ensures
            final(self).wf(),
            final(self).toks() == old(self).toks(),
            match spec_parse_var_list(old(self).toks(), old(self).cursor(), prec@, vars_view(acc@)) {
                Step::Good { v, pos } => r matches Ok(e) && e@ == v && final(self).cursor() == pos,
                Step::Bad { e } => r matches Err(err) && err@ == e,
            },
            r is Ok ==> final(self).cursor() > old(self).cursor(),
        decreases self.toks().len() - self.cursor(), 7int,
    {
        let ghost accv = acc@;
        if self.pos >= self.tokens.len() {
            return Err(ParseError::ExpectedVarIdent);
        }
        let name = match self.curr() {
            Token::Ident(n) => n,
            _ => {
                return Err(ParseError::ExpectedVarIdent);
            },
        };
        if let Err(e) = self.advance() {
            return Err(e);
        }
        let is_eq = match self.curr() {
            Token::Op(c) => c == '=',
            _ => false,
        };
        if is_eq {
            if let Err(e) = self.advance() {
                return Err(e);
            }
            let iv = match self.parse_expr(prec) {
                Ok(x) => x,
                Err(e) => {
                    return Err(e);
                },
            };
            proof {
                lemma_vars_view_push(accv, (name, Option::Some(iv)));
            }
            let mut acc2 = acc;
            acc2.push((name, Some(iv)));
            self.parse_var_tail(acc2, prec)
        } else {
            proof {
                lemma_vars_view_push(accv, (name, Option::None));
            }
            let mut acc2 = acc;
            acc2.push((name, None));
            self.parse_var_tail(acc2, prec)
        }
    }

    /// The separator after one `var` binding: a comma continues the
    /// list, `in` introduces the body.
    fn parse_var_tail(&mut self, acc: Vec<(String, Option<Expr>)>, prec: &PrecTable) -> (r: Result<
        Expr,
        ParseError,
    >)
        requires
            old(self).wf(),
        ensures
            final(self).wf(),
            final(self).toks() == old(self).toks(),
            match spec_parse_var_tail(old(self).toks(), old(self).cursor(), prec@, vars_view(acc@)) {
                Step::Good { v, pos } => r matches Ok(e) && e@ == v && final(self).cursor() == pos,
                Step::Bad { e } => r matches Err(err) && err@ == e,
            },
            r is Ok ==> final(self).cursor() > old(self).cursor(),
        decreases self.toks().len() - self.cursor(), 6int,
    {
        if self.pos >= self.tokens.len() {
            return Err(ParseError::ExpectedVarSeparator);
        }
        let cur = self.curr();
        match cur {
            Token::Comma => {
                if let Err(e) = self.advance() {
                    return Err(e);
                }
                self.parse_var_list(acc, prec)
            },
            Token::In => {
                if let Err(e) = self.advance() {
                    return Err(e);
                }
                let body = match self.parse_expr(prec) {
                    Ok(x) => x,
                    Err(e) => {
                        return Err(e);
                    },
                };
                Ok(Expr::VarIn { variables: acc, body: Box::new(body) })
            },
            _ => Err(ParseError::ExpectedVarSeparator),
        }
    }
}

impl Parser {
    /// The parenthesized parameter list that completes a prototype.
    fn parse_proto_params(&mut self, name: String, is_op: bool, prec_v: usize) -> (r: Result<
        Prototype,
        ParseError,
    >)
        requires
            old(self).wf(),
        ensures
            final(self).wf(),
            final(self).toks() == old(self).toks(),
            match spec_proto_params(old(self).toks(), old(self).cursor(), name@, is_op, prec_v) {
                Step::Good { v, pos } => r matches Ok(p) && p@ == v && final(self).cursor() == pos,
                Step::Bad { e } => r matches Err(err) && err@ == e,
            },
    {
        if let Err(e) = self.eat(Token::LParen) {
            return Err(e);
        }
        proof {
            assert(params_view(Seq::<(String, String)>::empty()) =~= Seq::<(
                Seq<char>,
                Seq<char>,
            )>::empty());
        }
        if self.pos < self.tokens.len() {
            let is_rp = match self.curr() {
                Token::RParen => true,
                _ => false,
            };
            if is_rp {
                let _ = self.advance();
                return Ok(Prototype { name, args: Vec::new(), is_op, prec: prec_v });
            }
        }
        self.parse_param_list(name, is_op, prec_v, Vec::new())
    }

    /// One `name : type` parameter and its separator.
    fn parse_param_list(
        &mut self,
        name: String,
        is_op: bool,
        prec_v: usize,
        acc: Vec<(String, String)>,
    ) -> (r: Result<Prototype, ParseError>)
        requires
            old(self).wf(),
        ensures
            final(self).wf(),
            final(self).toks() == old(self).toks(),
            match spec_param_list(
                old(self).toks(),
                old(self).cursor(),
                name@,
                is_op,
                prec_v,
                params_view(acc@),
            ) {
                Step::Good { v, pos } => r matches Ok(p) && p@ == v && final(self).cursor() == pos,
                Step::Bad { e } => r matches Err(err) && err@ == e,
            },
        decreases self.toks().len() - self.cursor(),
    {
        let ghost accv = acc@;
        if self.pos >= self.tokens.len() {
            return Err(ParseError::ExpectedParamName);
        }
        let pname = match self.curr() {
            Token::Ident(n) => n,
            _ => {
                return Err(ParseError::ExpectedParamName);
            },
        };
        let _ = self.advance();
        if let Err(e) = self.eat(Token::Colon) {
            return Err(e);
        }
        if self.pos >= self.tokens.len() {
            return Err(ParseError::ExpectedParamType);
        }
        let ty = match self.curr() {
            Token::Ident(t) => t,
            _ => {
                return Err(ParseError::ExpectedParamType);
            },
        };
        if let Err(e) = self.advance() {
            return Err(e);
        }
        proof {
            assert(params_view(accv.push((pname, ty))) =~= params_view(accv).push(
                (pname@, ty@),
            ));
        }
        let mut acc2 = acc;
        acc2.push((pname, ty));
        let cur = self.curr();
        match cur {
            Token::RParen => {
                let _ = self.advance();
                Ok(Prototype { name, args: acc2, is_op, prec: prec_v })
            },
            Token::Comma => {
                let _ = self.advance();
                self.parse_param_list(name, is_op, prec_v, acc2)
            },
            _ => Err(ParseError::ExpectedParamSeparator),
        }
    }

    /// A prototype: a plain name, or a `binary`/`unary` operator
    /// declaration. A `binary` declaration writes the declared
    /// precedence into the caller's table as a side effect.
    fn parse_prototype(&mut self, table: &mut PrecTable) -> (r: Result<Prototype, ParseError>)
        requires
            old(self).wf(),
        ensures
            final(self).wf(),
            final(self).toks() == old(self).toks(),
            match spec_parse_proto(old(self).toks(), old(self).cursor(), old(table)@) {
                ProtoStep::Found { p, pos, tab } => r matches Ok(proto) && proto@ == p && final(self).cursor() == pos && final(table)@ == tab,
                ProtoStep::Failed { e, tab } => (r matches Err(err) && err@ == e && final(table)@
                    == tab),
            },
    {
        if self.pos >= self.tokens.len() {
            return Err(ParseError::UnexpectedEof);
        }
        let cur = self.curr();
        match cur {
            Token::Ident(id) => {
                if let Err(e) = self.advance() {
                    return Err(e);
                }
                self.parse_proto_params(id, false, 0)
            },
            Token::Binary => {
                if let Err(e) = self.advance() {
                    return Err(e);
                }
                let op = match self.curr() {
                    Token::Op(c) => c,
                    _ => {
                        return Err(ParseError::ExpectedOperator);
                    },
                };
                if let Err(e) = self.advance() {
                    return Err(e);
                }
                let mut name = String::from_str("binary");
                push_char(&mut name, op);
                let cur2 = self.curr();
                match cur2 {
                    Token::Number(t) => {
                        if let Err(e) = self.advance() {
                            return Err(e);
                        }
                        let pu = int_part_capped(&t, usize::MAX as i128) as usize;
                        let ti = int_part_capped(&t, i32::MAX as i128) as i32;
                        table.insert(op, ti);
                        self.parse_proto_params(name, true, pu)
                    },
                    _ => {
                        table.insert(op, 0);
                        self.parse_proto_params(name, true, 0)
                    },
                }
            },
            Token::Unary => {
                if let Err(e) = self.advance() {
                    return Err(e);
                }
                let op = match self.curr() {
                    Token::Op(c) => c,
                    _ => {
                        return Err(ParseError::ExpectedOperator);
                    },
                };
                let mut name = String::from_str("unary");
                push_char(&mut name, op);
                if let Err(e) = self.advance() {
                    return Err(e);
                }
                self.parse_proto_params(name, true, 0)
            },
            _ => Err(ParseError::ExpectedPrototypeName),
        }
    }

    /// A user-defined function: a cache clause, a prototype, and a
    /// body enclosed in braces.
    fn parse_def(&mut self, table: &mut PrecTable) -> (r: Result<Function, ParseError>)
        requires
            old(self).wf(),
        ensures
            final(self).wf(),
            final(self).toks() == old(self).toks(),
            match spec_parse_def(old(self).toks(), old(self).cursor(), old(table)@) {
                DeclStep::Made { f, pos, tab } => r matches Ok(func) && func@ == f && final(self).cursor() == pos && final(table)@ == tab,
                DeclStep::Failed { e, tab } => (r matches Err(err) && err@ == e && final(table)@
                    == tab),
            },
    {
        if self.pos >= self.tokens.len() {
            return Err(ParseError::BadDefKeyword);
        }
        let cur = self.curr();
        let cache: Cache;
        match cur {
            Token::Fn => {
                cache = Cache::Lru(-1);
            },
            Token::Lru => {
                cache = Cache::Lru(
                    match self.cache_capacity() {
                        Ok(v) => v,
                        Err(e) => {
                            return Err(e);
                        },
                    },
                );
            },
            Token::Mru => {
                cache = Cache::Mru(
                    match self.cache_capacity() {
                        Ok(v) => v,
                        Err(e) => {
                            return Err(e);
                        },
                    },
                );
            },
            Token::Lfu => {
                cache = Cache::Lfu(
                    match self.cache_capacity() {
                        Ok(v) => v,
                        Err(e) => {
                            return Err(e);
                        },
                    },
                );
            },
            Token::Mfu => {
                cache = Cache::Mfu(
                    match self.cache_capacity() {
                        Ok(v) => v,
                        Err(e) => {
                            return Err(e);
                        },
                    },
                );
            },
            _ => {
                return Err(ParseError::BadDefKeyword);
            },
        }
        if let Err(e) = self.advance() {
            return Err(e);
        }
        self.parse_def_body(cache, table)
    }

    /// The prototype and braced body of a definition, with its cache
    /// policy already decided.
    fn parse_def_body(&mut self, cache: Cache, table: &mut PrecTable) -> (r: Result<
        Function,
        ParseError,
    >)
        requires
            old(self).wf(),
        ensures
            final(self).wf(),
            final(self).toks() == old(self).toks(),
            match spec_def_body(old(self).toks(), old(self).cursor(), cache, old(table)@) {
                DeclStep::Made { f, pos, tab } => r matches Ok(func) && func@ == f && final(self).cursor() == pos && final(table)@ == tab,
                DeclStep::Failed { e, tab } => (r matches Err(err) && err@ == e && final(table)@
                    == tab),
            },
    {
        let proto = match self.parse_prototype(table) {
            Ok(p) => p,
            Err(e) => {
                return Err(e);
            },
        };
        if let Err(e) = self.eat(Token::LBrace) {
            return Err(e);
        }
        let body = match self.parse_expr(&*table) {
            Ok(b) => b,
            Err(e) => {
                return Err(e);
            },
        };
        if let Err(e) = self.eat(Token::RBrace) {
            return Err(e);
        }
        Ok(Function { prototype: proto, body: Some(body), is_anon: false, cache })
    }

    /// An external declaration: `extern` and a prototype; no body and
    /// no cache policy.
    fn parse_extern(&mut self, table: &mut PrecTable) -> (r: Result<Function, ParseError>)
        requires
            old(self).wf(),
            old(self).cursor() < old(self).toks().len(),
        ensures
            final(self).wf(),
            final(self).toks() == old(self).toks(),
            match spec_parse_extern(old(self).toks(), old(self).cursor(), old(table)@) {
                DeclStep::Made { f, pos, tab } => r matches Ok(func) && func@ == f && final(self).cursor() == pos && final(table)@ == tab,
                DeclStep::Failed { e, tab } => (r matches Err(err) && err@ == e && final(table)@
                    == tab),
            },
    {
        let _bound = self.tokens.len();
        proof {
            assert(self.toks().len() == self.tokens@.len());
        }
        self.pos = self.pos + 1;
        let proto = match self.parse_prototype(table) {
            Ok(p) => p,
            Err(e) => {
                return Err(e);
            },
        };
        Ok(Function { prototype: proto, body: None, is_anon: false, cache: Cache::Off })
    }

    /// A bare top-level expression, wrapped as an anonymous function.
    fn parse_toplevel_expr(&mut self, prec: &PrecTable) -> (r: Result<Function, ParseError>)
        requires
            old(self).wf(),
        ensures
            final(self).wf(),
            final(self).toks() == old(self).toks(),
            match spec_parse_top(old(self).toks(), old(self).cursor(), prec@) {
                DeclStep::Made { f, pos, tab } => r matches Ok(func) && func@ == f && final(self).cursor() == pos,
                DeclStep::Failed { e, tab } => r matches Err(err) && err@ == e,
            },
    {
        let v = match self.parse_expr(prec) {
            Ok(x) => x,
            Err(e) => {
                return Err(e);
            },
        };
        proof {
            assert(params_view(Seq::<(String, String)>::empty()) =~= Seq::<(
                Seq<char>,
                Seq<char>,
            )>::empty());
        }
        Ok(
            Function {
                prototype: Prototype {
                    name: String::from_str("anonymous"),
                    args: Vec::new(),
                    is_op: false,
                    prec: 0,
                },
                body: Some(v),
                is_anon: true,
                cache: Cache::Off,
            },
        )
    }

    /// Parses exactly one top-level unit out of the buffered tokens:
    /// a definition, an external declaration, or a bare expression
    /// wrapped as an anonymous function. Any token left after the
    /// unit is an error. The caller's precedence table is read for
    /// grouping and updated by `binary` operator declarations.
    #[verifier::rlimit(80)]
    pub fn parse(&mut self, op_precedence: &mut PrecTable) -> (r: Result<Function, ParseError>)
        requires
            old(self).wf(),
        ensures
            final(self).wf(),
            match spec_parse(old(self).toks(), old(self).cursor(), old(op_precedence)@) {
                ParseOut::Parsed { f, tab } => r matches Ok(func) && func@ == f && final(op_precedence)@ == tab,
                ParseOut::Refused { e, tab } => (r matches Err(err) && err@ == e && final(op_precedence)@ == tab),
            },
    {
        if self.pos >= self.tokens.len() {
            return Err(ParseError::UnexpectedEof);
        }
        let cur = self.curr();
        let result = match cur {
            Token::Fn | Token::Lru | Token::Mru | Token::Lfu | Token::Mfu => self.parse_def(
                op_precedence,
            ),
            Token::Binary | Token::Unary => self.parse_def_body(Cache::Lru(-1), op_precedence),
            Token::Extern => self.parse_extern(op_precedence),
            _ => self.parse_toplevel_expr(&*op_precedence),
        };
        match result {
            Ok(f) => {
                if !self.at_end() {
                    Err(ParseError::ExtraToken)
                } else {
                    Ok(f)
                }
            },
            Err(e) => Err(e),
        }
    }
}

/// Parsing is deterministic: one token sequence, parsed against equal
/// starting precedence tables, yields one outcome — the same tree or
/// the same failure, and the same final table. Together with the
/// contract of `Parser::parse`, whose result is exactly
/// `spec_parse` of its input, two parses of the same source from
/// equal tables return structurally identical results.
pub proof fn lemma_parse_deterministic(toks: Seq<TokV>, t1: Map<char, i32>, t2: Map<char, i32>)
    requires
        t1 == t2,
    ensures
        spec_parse(toks, 0, t1) == spec_parse(toks, 0, t2),
{
}

} // verus!
