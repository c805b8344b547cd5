//! Expression engine: a parser for arithmetic expressions and the
//! dependency order of a table of named expressions.

use vstd::prelude::*;
use vstd::string::StringSliceAdditionalSpecFns;
use crate::text::{text_lt, text_less, str_eq, owned};

verus! {

/// An expression tree. A number keeps the text it was written with.
#[derive(Debug)]
pub enum Ast {
    Num(String),
    Name(String),
    Neg(Box<Ast>),
    Add(Box<Ast>, Box<Ast>),
    Sub(Box<Ast>, Box<Ast>),
    Mul(Box<Ast>, Box<Ast>),
    Div(Box<Ast>, Box<Ast>),
    Pow(Box<Ast>, Box<Ast>),
    Call(String, Vec<Ast>),
}

/// The mathematical value of an expression tree.
pub enum Term {
    Num(Seq<char>),
    Name(Seq<char>),
    Neg(Box<Term>),
    Add(Box<Term>, Box<Term>),
    Sub(Box<Term>, Box<Term>),
    Mul(Box<Term>, Box<Term>),
    Div(Box<Term>, Box<Term>),
    Pow(Box<Term>, Box<Term>),
    Call(Seq<char>, Seq<Term>),
}

pub open spec fn term_of(a: Ast) -> Term
    decreases a,
{
    match a {
        Ast::Num(s) => Term::Num(s@),
        Ast::Name(s) => Term::Name(s@),
        Ast::Neg(x) => Term::Neg(Box::new(term_of(*x))),
        Ast::Add(x, y) => Term::Add(Box::new(term_of(*x)), Box::new(term_of(*y))),
        Ast::Sub(x, y) => Term::Sub(Box::new(term_of(*x)), Box::new(term_of(*y))),
        Ast::Mul(x, y) => Term::Mul(Box::new(term_of(*x)), Box::new(term_of(*y))),
        Ast::Div(x, y) => Term::Div(Box::new(term_of(*x)), Box::new(term_of(*y))),
        Ast::Pow(x, y) => Term::Pow(Box::new(term_of(*x)), Box::new(term_of(*y))),
        Ast::Call(f, args) => Term::Call(f@, terms_of(args@)),
    }
}

pub open spec fn terms_of(s: Seq<Ast>) -> Seq<Term>
    decreases s,
{
    if s.len() == 0 {
        Seq::empty()
    } else {
        terms_of(s.drop_last()).push(term_of(s.last()))
    }
}

/// Why an expression could not be used.
#[derive(Debug, PartialEq)]
pub enum ExprError {
    Parse { pos: usize, msg: String },
    UnknownName(String),
    Cycle(String),
    DivZero,
    UnknownFunction(String),
}

/// The text that reports an expression error.
pub open spec fn expr_error_text(e: ExprError) -> Seq<char> {
    match e {
        ExprError::Parse { pos, msg } => "parse error at "@ + crate::text::decimal(pos as nat) + ": "@ + msg@,
        ExprError::UnknownName(n) => "unknown name '"@ + n@ + "'"@,
        ExprError::Cycle(n) => "cycle through '"@ + n@ + "'"@,
        ExprError::DivZero => "division by zero"@,
        ExprError::UnknownFunction(n) => "unknown function '"@ + n@ + "'"@,
    }
}

impl ExprError {
    /// The text that reports this error.
    pub fn message(&self) -> (r: String)
        ensures
            r@ == expr_error_text(*self),
    {
        match self {
            ExprError::Parse { pos, msg } => {
                let mut r = owned("parse error at ");
                crate::text::push_decimal(&mut r, *pos as u64);
                r.append(": ");
                r.append(msg.as_str());
                r
            },
            ExprError::UnknownName(n) => {
                let mut r = owned("unknown name '");
                r.append(n.as_str());
                r.append("'");
                r
            },
            ExprError::Cycle(n) => {
                let mut r = owned("cycle through '");
                r.append(n.as_str());
                r.append("'");
                r
            },
            ExprError::DivZero => owned("division by zero"),
            ExprError::UnknownFunction(n) => {
                let mut r = owned("unknown function '");
                r.append(n.as_str());
                r.append("'");
                r
            },
        }
    }
}

// ---------------------------------------------------------------- grammar
//   expr   := term (('+' | '-') term)*
//   term   := unary (('*' | '/') unary)*
//   unary  := '-' unary | power
//   power  := atom ('^' unary)?
//   atom   := number | name | name '(' args ')' | '(' expr ')'

pub open spec fn is_space(c: u8) -> bool {
    c == 0x20u8 || c == 0x09u8 || c == 0x0Au8 || c == 0x0Cu8 || c == 0x0Du8
}

pub open spec fn is_digit(c: u8) -> bool {
    0x30u8 <= c <= 0x39u8
}

pub open spec fn is_alpha(c: u8) -> bool {
    (0x41u8 <= c <= 0x5Au8) || (0x61u8 <= c <= 0x7Au8)
}

/// A byte that may continue a name.
pub open spec fn is_name_byte(c: u8) -> bool {
    is_alpha(c) || is_digit(c) || c == 0x5Fu8
}

/// A byte that may continue a number.
pub open spec fn is_number_byte(c: u8) -> bool {
    is_digit(c) || c == 0x2Eu8 || c == 0x65u8 || c == 0x45u8
}

/// The first position at or after `pos` that is not white space.
pub open spec fn skip_ws(b: Seq<u8>, pos: int) -> int
    decreases b.len() - pos,
{
    if 0 <= pos < b.len() && is_space(b[pos]) {
        skip_ws(b, pos + 1)
    } else {
        pos
    }
}

/// The end of the run of number bytes that starts at `pos`.
pub open spec fn number_end(b: Seq<u8>, pos: int) -> int
    decreases b.len() - pos,
{
    if 0 <= pos < b.len() && is_number_byte(b[pos]) {
        number_end(b, pos + 1)
    } else {
        pos
    }
}

/// The end of the run of name bytes that starts at `pos`.
pub open spec fn name_end(b: Seq<u8>, pos: int) -> int
    decreases b.len() - pos,
{
    if 0 <= pos < b.len() && is_name_byte(b[pos]) {
        name_end(b, pos + 1)
    } else {
        pos
    }
}

/// The position of the first `e` or `E` at or after `pos`, or the end.
pub open spec fn exponent_at(b: Seq<u8>, pos: int) -> int
    decreases b.len() - pos,
{
    if 0 <= pos < b.len() && b[pos] != 0x65u8 && b[pos] != 0x45u8 {
        exponent_at(b, pos + 1)
    } else {
        pos
    }
}

pub proof fn lemma_skip_ws(b: Seq<u8>, pos: int)
    requires
        0 <= pos <= b.len(),
    ensures
        pos <= skip_ws(b, pos) <= b.len(),
    decreases b.len() - pos,
{
    if pos < b.len() && is_space(b[pos]) {
        lemma_skip_ws(b, pos + 1);
    }
}

pub proof fn lemma_name_end(b: Seq<u8>, pos: int)
    requires
        0 <= pos <= b.len(),
    ensures
        pos <= name_end(b, pos) <= b.len(),
    decreases b.len() - pos,
{
    if pos < b.len() && is_name_byte(b[pos]) {
        lemma_name_end(b, pos + 1);
    }
}

/// Bytes read as characters; used for names and numbers, which are ASCII.
pub open spec fn ascii_text(s: Seq<u8>) -> Seq<char> {
    s.map_values(|c: u8| c as char)
}

pub open spec fn count_points(s: Seq<u8>) -> nat
    decreases s.len(),
{
    if s.len() == 0 {
        0
    } else {
        count_points(s.drop_last()) + if s.last() == 0x2Eu8 { 1nat } else { 0nat }
    }
}

pub open spec fn count_digits(s: Seq<u8>) -> nat
    decreases s.len(),
{
    if s.len() == 0 {
        0
    } else {
        count_digits(s.drop_last()) + if is_digit(s.last()) { 1nat } else { 0nat }
    }
}

/// The part of a number before its exponent: digits with at most one
/// point, and at least one digit.
pub open spec fn mantissa_ok(m: Seq<u8>) -> bool {
    &&& forall|i: int| 0 <= i < m.len() ==> is_digit(#[trigger] m[i]) || m[i] == 0x2Eu8
    &&& count_points(m) <= 1
    &&& count_digits(m) >= 1
}

/// True when `t` (bytes from `[0-9.eE]`) reads as a decimal floating point
/// number: a mantissa, then optionally `e` or `E` and at least one digit.
pub open spec fn number_text_ok(t: Seq<u8>) -> bool {
    let k = exponent_at(t, 0);
    &&& mantissa_ok(t.take(k))
    &&& k == t.len() || (t.len() - k >= 2 && forall|i: int| k < i < t.len() ==> is_digit(#[trigger] t[i]))
}

/// Result of parsing a piece of the text: the tree and the position after
/// it, or the position and message of the error.
pub type Parsed = Result<(Term, int), (int, Seq<char>)>;

pub open spec fn msg_atom() -> Seq<char> {
    "expected number, name or '('"@
}

pub open spec fn msg_close() -> Seq<char> {
    "expected ')'"@
}

pub open spec fn msg_args() -> Seq<char> {
    "expected ',' or ')'"@
}

pub open spec fn msg_number() -> Seq<char> {
    "bad number"@
}

pub open spec fn msg_trailing() -> Seq<char> {
    "unexpected trailing input"@
}

/// Bytes at `q` equal `c`.
pub open spec fn at(b: Seq<u8>, q: int, c: u8) -> bool {
    0 <= q < b.len() && b[q] == c
}

pub open spec fn p_expr(b: Seq<u8>, pos: int) -> Parsed
    decreases b.len() - pos, 7int,
{
    if !(0 <= pos <= b.len()) {
        Err((pos, Seq::empty()))
    } else {
        match p_term(b, pos) {
            Err(e) => Err(e),
            Ok((lhs, p)) => if pos <= p <= b.len() {
                p_expr_rest(b, lhs, p)
            } else {
                Err((p, Seq::empty()))
            },
        }
    }
}

pub open spec fn p_expr_rest(b: Seq<u8>, lhs: Term, pos: int) -> Parsed
    decreases b.len() - pos, 6int,
{
    if !(0 <= pos <= b.len()) {
        Err((pos, Seq::empty()))
    } else {
        let q = skip_ws(b, pos);
        proof {
            lemma_skip_ws(b, pos);
        }
        if at(b, q, 0x2Bu8) || at(b, q, 0x2Du8) {
            match p_term(b, q + 1) {
                Err(e) => Err(e),
                Ok((rhs, p)) => if q + 1 <= p <= b.len() {
                    let t = if b[q] == 0x2Bu8 {
                        Term::Add(Box::new(lhs), Box::new(rhs))
                    } else {
                        Term::Sub(Box::new(lhs), Box::new(rhs))
                    };
                    p_expr_rest(b, t, p)
                } else {
                    Err((p, Seq::empty()))
                },
            }
        } else {
            Ok((lhs, q))
        }
    }
}

pub open spec fn p_term(b: Seq<u8>, pos: int) -> Parsed
    decreases b.len() - pos, 5int,
{
    if !(0 <= pos <= b.len()) {
        Err((pos, Seq::empty()))
    } else {
        match p_unary(b, pos) {
            Err(e) => Err(e),
            Ok((lhs, p)) => if pos <= p <= b.len() {
                p_term_rest(b, lhs, p)
            } else {
                Err((p, Seq::empty()))
            },
        }
    }
}

pub open spec fn p_term_rest(b: Seq<u8>, lhs: Term, pos: int) -> Parsed
    decreases b.len() - pos, 4int,
{
    if !(0 <= pos <= b.len()) {
        Err((pos, Seq::empty()))
    } else {
        let q = skip_ws(b, pos);
        proof {
            lemma_skip_ws(b, pos);
        }
        if at(b, q, 0x2Au8) || at(b, q, 0x2Fu8) {
            match p_unary(b, q + 1) {
                Err(e) => Err(e),
                Ok((rhs, p)) => if q + 1 <= p <= b.len() {
                    let t = if b[q] == 0x2Au8 {
                        Term::Mul(Box::new(lhs), Box::new(rhs))
                    } else {
                        Term::Div(Box::new(lhs), Box::new(rhs))
                    };
                    p_term_rest(b, t, p)
                } else {
                    Err((p, Seq::empty()))
                },
            }
        } else {
            Ok((lhs, q))
        }
    }
}

pub open spec fn p_unary(b: Seq<u8>, pos: int) -> Parsed
    decreases b.len() - pos, 3int,
{
    if !(0 <= pos <= b.len()) {
        Err((pos, Seq::empty()))
    } else {
        let q = skip_ws(b, pos);
        proof {
            lemma_skip_ws(b, pos);
        }
        if at(b, q, 0x2Du8) {
            match p_unary(b, q + 1) {
                Err(e) => Err(e),
                Ok((x, p)) => Ok((Term::Neg(Box::new(x)), p)),
            }
        } else {
            p_power(b, q)
        }
    }
}

pub open spec fn p_power(b: Seq<u8>, pos: int) -> Parsed
    decreases b.len() - pos, 2int,
{
    if !(0 <= pos <= b.len()) {
        Err((pos, Seq::empty()))
    } else {
        match p_atom(b, pos) {
            Err(e) => Err(e),
            Ok((base, p)) => if pos <= p <= b.len() {
                let q = skip_ws(b, p);
                proof {
                    lemma_skip_ws(b, p);
                }
                if at(b, q, 0x5Eu8) {
                    match p_unary(b, q + 1) {
                        Err(e) => Err(e),
                        Ok((x, p2)) => Ok((Term::Pow(Box::new(base), Box::new(x)), p2)),
                    }
                } else {
                    Ok((base, q))
                }
            } else {
                Err((p, Seq::empty()))
            },
        }
    }
}

pub open spec fn p_atom(b: Seq<u8>, pos: int) -> Parsed
    decreases b.len() - pos, 1int,
{
    if !(0 <= pos <= b.len()) {
        Err((pos, Seq::empty()))
    } else {
        let q = skip_ws(b, pos);
        proof {
            lemma_skip_ws(b, pos);
        }
        if q >= b.len() {
            Err((q, msg_atom()))
        } else if b[q] == 0x28u8 {
            match p_expr(b, q + 1) {
                Err(e) => Err(e),
                Ok((e, p)) => if q + 1 <= p <= b.len() {
                    let r = skip_ws(b, p);
                    if at(b, r, 0x29u8) {
                        Ok((e, r + 1))
                    } else {
                        Err((r, msg_close()))
                    }
                } else {
                    Err((p, Seq::empty()))
                },
            }
        } else if is_digit(b[q]) || b[q] == 0x2Eu8 {
            let end = number_end(b, q);
            let text = b.subrange(q, end);
            if number_text_ok(text) {
                Ok((Term::Num(ascii_text(text)), end))
            } else {
                Err((end, msg_number()))
            }
        } else if is_alpha(b[q]) || b[q] == 0x5Fu8 {
            let end = name_end(b, q);
            proof {
                lemma_name_end(b, q);
            }
            let name = ascii_text(b.subrange(q, end));
            let r = skip_ws(b, end);
            proof {
                lemma_skip_ws(b, end);
            }
            if at(b, r, 0x28u8) {
                let r2 = skip_ws(b, r + 1);
                proof {
                    lemma_skip_ws(b, r + 1);
                }
                if at(b, r2, 0x29u8) {
                    Ok((Term::Call(name, Seq::empty()), r2 + 1))
                } else {
                    p_args(b, name, Seq::empty(), r2)
                }
            } else {
                Ok((Term::Name(name), r))
            }
        } else {
            Err((q, msg_atom()))
        }
    }
}

/// The arguments of a call after the opening bracket: `expr (',' expr)* ')'`.
pub open spec fn p_args(b: Seq<u8>, name: Seq<char>, acc: Seq<Term>, pos: int) -> Parsed
    decreases b.len() - pos, 8int,
{
    if !(0 <= pos <= b.len()) {
        Err((pos, Seq::empty()))
    } else {
        match p_expr(b, pos) {
            Err(e) => Err(e),
            Ok((a, p)) => if pos <= p <= b.len() {
                let acc2 = acc.push(a);
                let q = skip_ws(b, p);
                proof {
                    lemma_skip_ws(b, p);
                }
                if at(b, q, 0x29u8) {
                    Ok((Term::Call(name, acc2), q + 1))
                } else if at(b, q, 0x2Cu8) {
                    p_args(b, name, acc2, q + 1)
                } else {
                    Err((q, msg_args()))
                }
            } else {
                Err((p, Seq::empty()))
            },
        }
    }
}

/// The whole text as one expression.
pub open spec fn parse_spec(b: Seq<u8>) -> Result<Term, (int, Seq<char>)> {
    match p_expr(b, 0) {
        Err(e) => Err(e),
        Ok((t, p)) => {
            let q = skip_ws(b, p);
            if q == b.len() {
                Ok(t)
            } else {
                Err((q, msg_trailing()))
            }
        },
    }
}

/// An exec parse result agrees with a spec one.
pub open spec fn agrees(r: Result<(Ast, usize), ExprError>, s: Parsed) -> bool {
    match (r, s) {
        (Ok((a, p)), Ok((t, q))) => term_of(a) == t && p as int == q,
        (Err(ExprError::Parse { pos, msg }), Err((q, m))) => pos as int == q && msg@ == m,
        _ => false,
    }
}

pub open spec fn advanced(r: Result<(Ast, usize), ExprError>, pos: int, len: int) -> bool {
    r matches Ok((_, p)) ==> pos <= p <= len
}

fn space(c: u8) -> (r: bool)
    ensures
        r == is_space(c),
{
    c == 0x20u8 || c == 0x09u8 || c == 0x0Au8 || c == 0x0Cu8 || c == 0x0Du8
}

fn digit(c: u8) -> (r: bool)
    ensures
        r == is_digit(c),
{
    0x30u8 <= c && c <= 0x39u8
}

fn alpha(c: u8) -> (r: bool)
    ensures
        r == is_alpha(c),
{
    (0x41u8 <= c && c <= 0x5Au8) || (0x61u8 <= c && c <= 0x7Au8)
}

fn ws(b: &[u8], pos: usize) -> (q: usize)
    requires
        pos <= b@.len(),
    ensures
        q as int == skip_ws(b@, pos as int),
        pos <= q <= b@.len(),
{
    let mut q = pos;
    while q < b.len() && space(b[q])
        invariant
            pos <= q <= b@.len(),
            skip_ws(b@, q as int) == skip_ws(b@, pos as int),
        decreases b@.len() - q,
    {
        q = q + 1;
    }
    q
}

fn perr(pos: usize, msg: &str) -> (e: ExprError)
    ensures
        e matches ExprError::Parse { pos: p, msg: m } && p == pos && m@ == msg@,
{
    ExprError::Parse { pos, msg: crate::text::owned(msg) }
}

fn ascii_string(b: &[u8], lo: usize, hi: usize) -> (s: String)
    requires
        lo <= hi <= b@.len(),
    ensures
        s@ == ascii_text(b@.subrange(lo as int, hi as int)),
{
    let mut s = String::new();
    let mut i = lo;
    while i < hi
        invariant
            lo <= i <= hi <= b@.len(),
            s@ == ascii_text(b@.subrange(lo as int, i as int)),
        decreases hi - i,
    {
        crate::text::push_char(&mut s, b[i] as char);
        assert(ascii_text(b@.subrange(lo as int, i + 1)) =~= ascii_text(b@.subrange(lo as int, i as int)).push(
            b@[i as int] as char,
        ));
        i = i + 1;
    }
    s
}

proof fn lemma_exponent_at(b: Seq<u8>, pos: int)
    requires
        0 <= pos <= b.len(),
    ensures
        pos <= exponent_at(b, pos) <= b.len(),
        forall|i: int| pos <= i < exponent_at(b, pos) ==> #[trigger] b[i] != 0x65u8 && b[i] != 0x45u8,
        exponent_at(b, pos) < b.len() ==> b[exponent_at(b, pos)] == 0x65u8 || b[exponent_at(b, pos)]
            == 0x45u8,
    decreases b.len() - pos,
{
    if pos < b.len() && b[pos] != 0x65u8 && b[pos] != 0x45u8 {
        lemma_exponent_at(b, pos + 1);
    }
}

/// Whether `t` reads as a number (see `number_text_ok`).
fn number_ok(t: &Vec<u8>) -> (r: bool)
    requires
        forall|i: int| 0 <= i < t@.len() ==> is_number_byte(#[trigger] t@[i]),
    ensures
        r == number_text_ok(t@),
{
    let n = t.len();
    let mut k: usize = 0;
    while k < n && t[k] != 0x65u8 && t[k] != 0x45u8
        invariant
            k <= n == t@.len(),
            exponent_at(t@, k as int) == exponent_at(t@, 0),
        decreases n - k,
    {
        k = k + 1;
    }
    proof {
        lemma_exponent_at(t@, 0);
    }
    let ghost m = t@.take(k as int);
    let mut points: usize = 0;
    let mut digits: usize = 0;
    let mut i: usize = 0;
    while i < k
        invariant
            i <= k <= n == t@.len(),
            m == t@.take(k as int),
            k as int == exponent_at(t@, 0),
            forall|j: int| 0 <= j < k ==> #[trigger] t@[j] != 0x65u8 && t@[j] != 0x45u8,
            forall|j: int| 0 <= j < t@.len() ==> is_number_byte(#[trigger] t@[j]),
            points as nat == count_points(m.take(i as int)),
            digits as nat == count_digits(m.take(i as int)),
            points <= i,
            digits <= i,
        decreases k - i,
    {
        assert(m.take(i + 1).drop_last() =~= m.take(i as int));
        if t[i] == 0x2Eu8 {
            points = points + 1;
        }
        if digit(t[i]) {
            digits = digits + 1;
        }
        i = i + 1;
    }
    assert(m.take(k as int) =~= m);
    assert forall|j: int| 0 <= j < m.len() implies is_digit(#[trigger] m[j]) || m[j] == 0x2Eu8 by {
        assert(is_number_byte(t@[j]));
    }
    if points > 1 || digits < 1 {
        return false;
    }
    if k == n {
        return true;
    }
    if n - k < 2 {
        return false;
    }
    let mut j = k + 1;
    while j < n
        invariant
            k < j <= n == t@.len(),
            k as int == exponent_at(t@, 0),
            mantissa_ok(t@.take(k as int)),
            forall|i: int| k < i < j ==> is_digit(#[trigger] t@[i]),
        decreases n - j,
    {
        if !digit(t[j]) {
            return false;
        }
        j = j + 1;
    }
    true
}

fn expr(b: &[u8], pos: usize) -> (r: Result<(Ast, usize), ExprError>)
    requires
        pos <= b@.len(),
    ensures
        agrees(r, p_expr(b@, pos as int)),
        advanced(r, pos as int, b@.len() as int),
    decreases b@.len() - pos, 7int,
{
    match term(b, pos) {
        Err(e) => Err(e),
        Ok((lhs, p)) => expr_rest(b, lhs, p),
    }
}

fn expr_rest(b: &[u8], lhs: Ast, pos: usize) -> (r: Result<(Ast, usize), ExprError>)
    requires
        pos <= b@.len(),
    ensures
        agrees(r, p_expr_rest(b@, term_of(lhs), pos as int)),
        advanced(r, pos as int, b@.len() as int),
    decreases b@.len() - pos, 6int,
{
    let q = ws(b, pos);
    if q < b.len() && (b[q] == 0x2Bu8 || b[q] == 0x2Du8) {
        let plus = b[q] == 0x2Bu8;
        match term(b, q + 1) {
            Err(e) => Err(e),
            Ok((rhs, p)) => {
                let t = if plus {
                    Ast::Add(Box::new(lhs), Box::new(rhs))
                } else {
                    Ast::Sub(Box::new(lhs), Box::new(rhs))
                };
                expr_rest(b, t, p)
            },
        }
    } else {
        Ok((lhs, q))
    }
}

fn term(b: &[u8], pos: usize) -> (r: Result<(Ast, usize), ExprError>)
    requires
        pos <= b@.len(),
    ensures
        agrees(r, p_term(b@, pos as int)),
        advanced(r, pos as int, b@.len() as int),
    decreases b@.len() - pos, 5int,
{
    match unary(b, pos) {
        Err(e) => Err(e),
        Ok((lhs, p)) => term_rest(b, lhs, p),
    }
}

fn term_rest(b: &[u8], lhs: Ast, pos: usize) -> (r: Result<(Ast, usize), ExprError>)
    requires
        pos <= b@.len(),
    ensures
        agrees(r, p_term_rest(b@, term_of(lhs), pos as int)),
        advanced(r, pos as int, b@.len() as int),
    decreases b@.len() - pos, 4int,
{
    let q = ws(b, pos);
    if q < b.len() && (b[q] == 0x2Au8 || b[q] == 0x2Fu8) {
        let times = b[q] == 0x2Au8;
        match unary(b, q + 1) {
            Err(e) => Err(e),
            Ok((rhs, p)) => {
                let t = if times {
                    Ast::Mul(Box::new(lhs), Box::new(rhs))
                } else {
                    Ast::Div(Box::new(lhs), Box::new(rhs))
                };
                term_rest(b, t, p)
            },
        }
    } else {
        Ok((lhs, q))
    }
}

fn unary(b: &[u8], pos: usize) -> (r: Result<(Ast, usize), ExprError>)
    requires
        pos <= b@.len(),
    ensures
        agrees(r, p_unary(b@, pos as int)),
        advanced(r, pos as int, b@.len() as int),
    decreases b@.len() - pos, 3int,
{
    let q = ws(b, pos);
    if q < b.len() && b[q] == 0x2Du8 {
        match unary(b, q + 1) {
            Err(e) => Err(e),
            Ok((x, p)) => Ok((Ast::Neg(Box::new(x)), p)),
        }
    } else {
        power(b, q)
    }
}

fn power(b: &[u8], pos: usize) -> (r: Result<(Ast, usize), ExprError>)
    requires
        pos <= b@.len(),
    ensures
        agrees(r, p_power(b@, pos as int)),
        advanced(r, pos as int, b@.len() as int),
    decreases b@.len() - pos, 2int,
{
    match atom(b, pos) {
        Err(e) => Err(e),
        Ok((base, p)) => {
            let q = ws(b, p);
            if q < b.len() && b[q] == 0x5Eu8 {
                match unary(b, q + 1) {
                    Err(e) => Err(e),
                    Ok((x, p2)) => Ok((Ast::Pow(Box::new(base), Box::new(x)), p2)),
                }
            } else {
                Ok((base, q))
            }
        },
    }
}

fn atom(b: &[u8], pos: usize) -> (r: Result<(Ast, usize), ExprError>)
    requires
        pos <= b@.len(),
    ensures
        agrees(r, p_atom(b@, pos as int)),
        advanced(r, pos as int, b@.len() as int),
    decreases b@.len() - pos, 1int,
{
    let q = ws(b, pos);
    if q >= b.len() {
        return Err(perr(q, "expected number, name or '('"));
    }
    let c = b[q];
    if c == 0x28u8 {
        match expr(b, q + 1) {
            Err(e) => Err(e),
            Ok((e, p)) => {
                let r = ws(b, p);
                if r < b.len() && b[r] == 0x29u8 {
                    Ok((e, r + 1))
                } else {
                    Err(perr(r, "expected ')'"))
                }
            },
        }
    } else if digit(c) || c == 0x2Eu8 {
        let mut end = q;
        while end < b.len() && (digit(b[end]) || b[end] == 0x2Eu8 || b[end] == 0x65u8 || b[end] == 0x45u8)
            invariant
                q <= end <= b@.len(),
                number_end(b@, end as int) == number_end(b@, q as int),
                forall|i: int| q <= i < end ==> is_number_byte(#[trigger] b@[i]),
            decreases b@.len() - end,
        {
            end = end + 1;
        }
        let mut t: Vec<u8> = Vec::new();
        let mut i = q;
        while i < end
            invariant
                q <= i <= end <= b@.len(),
                t@ == b@.subrange(q as int, i as int),
            decreases end - i,
        {
            t.push(b[i]);
            assert(t@ =~= b@.subrange(q as int, i + 1));
            i = i + 1;
        }
        assert(t@ =~= b@.subrange(q as int, end as int));
        if number_ok(&t) {
            Ok((Ast::Num(ascii_string(b, q, end)), end))
        } else {
            Err(perr(end, "bad number"))
        }
    } else if alpha(c) || c == 0x5Fu8 {
        let mut end = q;
        while end < b.len() && (alpha(b[end]) || digit(b[end]) || b[end] == 0x5Fu8)
            invariant
                q <= end <= b@.len(),
                name_end(b@, end as int) == name_end(b@, q as int),
            decreases b@.len() - end,
        {
            end = end + 1;
        }
        let name = ascii_string(b, q, end);
        let r = ws(b, end);
        if r < b.len() && b[r] == 0x28u8 {
            let r2 = ws(b, r + 1);
            if r2 < b.len() && b[r2] == 0x29u8 {
                let ghost empty: Seq<Ast> = Seq::empty();
                proof {
                    assert(terms_of(empty) == Seq::<Term>::empty());
                }
                Ok((Ast::Call(name, Vec::new()), r2 + 1))
            } else {
                args(b, name, Vec::new(), r2)
            }
        } else {
            Ok((Ast::Name(name), r))
        }
    } else {
        Err(perr(q, "expected number, name or '('"))
    }
}

fn args(b: &[u8], name: String, acc: Vec<Ast>, pos: usize) -> (r: Result<(Ast, usize), ExprError>)
    requires
        pos <= b@.len(),
    ensures
        agrees(r, p_args(b@, name@, terms_of(acc@), pos as int)),
        advanced(r, pos as int, b@.len() as int),
    decreases b@.len() - pos, 8int,
{
    match expr(b, pos) {
        Err(e) => Err(e),
        Ok((a, p)) => {
            let ghost old_acc = acc@;
            let mut acc = acc;
            acc.push(a);
            proof {
                assert(acc@.drop_last() =~= old_acc);
                assert(terms_of(acc@) == terms_of(old_acc).push(term_of(a)));
            }
            let q = ws(b, p);
            if q < b.len() && b[q] == 0x29u8 {
                Ok((Ast::Call(name, acc), q + 1))
            } else if q < b.len() && b[q] == 0x2Cu8 {
                args(b, name, acc, q + 1)
            } else {
                Err(perr(q, "expected ',' or ')'"))
            }
        },
    }
}

/// Parses an arithmetic expression.
///
/// Grammar: `expr := term (('+' | '-') term)*`, `term := unary (('*' |
/// '/') unary)*`, `unary := '-' unary | power`, `power := atom ('^'
/// unary)?`, `atom := number | name | name '(' args ')' | '(' expr ')'`.
/// White space may stand between tokens. The result is exactly
/// `parse_spec` of the text's bytes; every error is `ExprError::Parse`.
pub fn parse(src: &str) -> (r: Result<Ast, ExprError>)
    ensures
        match (r, parse_spec(src.spec_bytes())) {
            (Ok(a), Ok(t)) => term_of(a) == t,
            (Err(ExprError::Parse { pos, msg }), Err((q, m))) => pos as int == q && msg@ == m,
            _ => false,
        },
{
    let b = src.as_bytes();
    match expr(b, 0) {
        Err(e) => Err(e),
        Ok((a, p)) => {
            let q = ws(b, p);
            if q != b.len() {
                Err(perr(q, "unexpected trailing input"))
            } else {
                Ok(a)
            }
        },
    }
}

// ------------------------------------------------------------ references

/// The parameter names an expression refers to, left to right.
pub open spec fn names_of(t: Term) -> Seq<Seq<char>>
    decreases t,
{
    match t {
        Term::Num(_) => Seq::empty(),
        Term::Name(n) => seq![n],
        Term::Neg(a) => names_of(*a),
        Term::Add(a, b) => names_of(*a) + names_of(*b),
        Term::Sub(a, b) => names_of(*a) + names_of(*b),
        Term::Mul(a, b) => names_of(*a) + names_of(*b),
        Term::Div(a, b) => names_of(*a) + names_of(*b),
        Term::Pow(a, b) => names_of(*a) + names_of(*b),
        Term::Call(_, args) => names_in(args),
    }
}

pub open spec fn names_in(s: Seq<Term>) -> Seq<Seq<char>>
    decreases s,
{
    if s.len() == 0 {
        Seq::empty()
    } else {
        names_in(s.drop_last()) + names_of(s.last())
    }
}

/// The views of a list of strings.
pub open spec fn views(v: Seq<String>) -> Seq<Seq<char>> {
    v.map_values(|s: String| s@)
}

impl Ast {
    /// Appends every parameter name referenced by this expression to `out`.
    pub fn names(&self, out: &mut Vec<String>)
        ensures
            views(final(out)@) == views(old(out)@) + names_of(term_of(*self)),
        decreases self,
    {
        let ghost start = views(out@);
        match self {
            Ast::Num(_) => {
                assert(views(out@) =~= start + names_of(term_of(*self)));
            },
            Ast::Name(n) => {
                out.push(n.clone());
                assert(views(out@) =~= start + names_of(term_of(*self)));
            },
            Ast::Neg(a) => {
                a.names(out);
            },
            Ast::Add(a, b) | Ast::Sub(a, b) | Ast::Mul(a, b) | Ast::Div(a, b) | Ast::Pow(a, b) => {
                a.names(out);
                b.names(out);
                assert(views(out@) =~= start + names_of(term_of(*self)));
            },
            Ast::Call(_, args) => {
                let mut i: usize = 0;
                while i < args.len()
                    invariant
                        i <= args@.len(),
                        *self matches Ast::Call(_, a) && a == *args,
                        views(out@) == start + names_in(terms_of(args@.take(i as int))),
                    decreases args@.len() - i,
                {
                    proof {
                        assert(*args == self->Call_1);
                        assert(decreases_to!(*self => self->Call_1));
                        assert(decreases_to!(*args => args@));
                        assert(decreases_to!(args@ => args@[i as int]));
                    }
                    args[i].names(out);
                    proof {
                        let t = args@.take(i + 1);
                        assert(t.drop_last() =~= args@.take(i as int));
                        assert(terms_of(t).drop_last() =~= terms_of(args@.take(i as int)));
                        assert(views(out@) =~= start + names_in(terms_of(t)));
                    }
                    i = i + 1;
                }
                assert(args@.take(args@.len() as int) =~= args@);
            },
        }
    }
}

// ------------------------------------------------------- dependency order

/// `a` refers to `b` in the table `g` (name to referenced names).
pub open spec fn uses(g: Map<Seq<char>, Seq<Seq<char>>>, a: Seq<char>, b: Seq<char>) -> bool {
    g.dom().contains(a) && g[a].contains(b)
}

/// Each name in `p` refers to the next.
pub open spec fn is_chain(g: Map<Seq<char>, Seq<Seq<char>>>, p: Seq<Seq<char>>) -> bool {
    forall|j: int| 0 <= j < p.len() - 1 ==> uses(g, #[trigger] p[j], p[j + 1])
}

/// `n` refers to itself through one or more steps.
pub open spec fn on_cycle(g: Map<Seq<char>, Seq<Seq<char>>>, n: Seq<char>) -> bool {
    exists|p: Seq<Seq<char>>| p.len() >= 2 && p[0] == n && p.last() == n && #[trigger] is_chain(g, p)
}

/// `o` lists names of `g` without repeats, each after every name it refers to.
pub open spec fn is_ordered(g: Map<Seq<char>, Seq<Seq<char>>>, o: Seq<Seq<char>>) -> bool {
    &&& o.no_duplicates()
    &&& forall|i: int| 0 <= i < o.len() ==> g.dom().contains(#[trigger] o[i])
    &&& forall|i: int, d: Seq<char>|
        #![trigger g[o[i]].contains(d)]
        0 <= i < o.len() && g[o[i]].contains(d) ==> o.take(i).contains(d)
}

/// `keys[i]` refers to the names `deps[i]`, and `g` holds exactly that.
pub open spec fn graph_of(
    keys: Seq<Seq<char>>,
    deps: Seq<Seq<Seq<char>>>,
    g: Map<Seq<char>, Seq<Seq<char>>>,
) -> bool {
    &&& keys.len() == deps.len()
    &&& keys.no_duplicates()
    &&& forall|i: int| 0 <= i < keys.len() ==> g.dom().contains(#[trigger] keys[i]) && g[keys[i]] == deps[i]
    &&& forall|k: Seq<char>| #[trigger] g.dom().contains(k) ==> keys.contains(k)
}

/// What an error of the dependency order says about the table.
pub open spec fn order_error_ok(g: Map<Seq<char>, Seq<Seq<char>>>, e: ExprError) -> bool {
    match e {
        ExprError::Cycle(n) => on_cycle(g, n@),
        ExprError::UnknownName(n) => !g.dom().contains(n@) && exists|k: Seq<char>| #[trigger] uses(g, k, n@),
        _ => false,
    }
}

/// Why no order could be had: a name met again while it is being walked,
/// or a name the table does not hold.
pub enum OrderFault {
    Cycle(Seq<char>),
    Unknown(Seq<char>),
}

/// Whether an error reports the fault.
pub open spec fn reports(e: ExprError, f: OrderFault) -> bool {
    match (e, f) {
        (ExprError::Cycle(a), OrderFault::Cycle(b)) => a@ == b,
        (ExprError::UnknownName(a), OrderFault::Unknown(b)) => a@ == b,
        _ => false,
    }
}

/// The depth-first walk that orders a table of `n` names: `name` goes in
/// after the names it refers to, in the order they are written, that are
/// not ordered yet. `stack` holds the names being walked.
pub open spec fn walk(
    g: Map<Seq<char>, Seq<Seq<char>>>,
    n: nat,
    name: Seq<char>,
    stack: Seq<Seq<char>>,
    order: Seq<Seq<char>>,
) -> Result<Seq<Seq<char>>, OrderFault>
    decreases n - stack.len(), 0nat,
{
    if order.contains(name) {
        Ok(order)
    } else if stack.contains(name) {
        Err(OrderFault::Cycle(name))
    } else if !g.dom().contains(name) {
        Err(OrderFault::Unknown(name))
    } else if stack.len() >= n {
        Err(OrderFault::Cycle(name))
    } else {
        match walk_list(g, n, g[name], 0, stack.push(name), order) {
            Ok(o) => Ok(o.push(name)),
            Err(f) => Err(f),
        }
    }
}

/// The walk of the names `deps[i..]`, one after the other.
pub open spec fn walk_list(
    g: Map<Seq<char>, Seq<Seq<char>>>,
    n: nat,
    deps: Seq<Seq<char>>,
    i: int,
    stack: Seq<Seq<char>>,
    order: Seq<Seq<char>>,
) -> Result<Seq<Seq<char>>, OrderFault>
    decreases n - stack.len(), deps.len() - i + 1,
{
    if i < 0 || i >= deps.len() {
        Ok(order)
    } else {
        match walk(g, n, deps[i], stack, order) {
            Ok(o) => walk_list(g, n, deps, i + 1, stack, o),
            Err(f) => Err(f),
        }
    }
}

/// The walks from each of `keys[t..]` in turn, the table's names in order.
pub open spec fn walk_all(
    g: Map<Seq<char>, Seq<Seq<char>>>,
    keys: Seq<Seq<char>>,
    t: int,
    order: Seq<Seq<char>>,
) -> Result<Seq<Seq<char>>, OrderFault>
    decreases keys.len() - t,
{
    if t < 0 || t >= keys.len() {
        Ok(order)
    } else {
        match walk(g, keys.len(), keys[t], Seq::empty(), order) {
            Ok(o) => walk_all(g, keys, t + 1, o),
            Err(f) => Err(f),
        }
    }
}

fn has(v: &Vec<String>, n: &String) -> (r: bool)
    ensures
        r == views(v@).contains(n@),
{
    let mut i: usize = 0;
    while i < v.len()
        invariant
            i <= v@.len(),
            forall|j: int| 0 <= j < i ==> views(v@)[j] != n@,
        decreases v@.len() - i,
    {
        if crate::text::str_eq(v[i].as_str(), n.as_str()) {
            assert(views(v@)[i as int] == n@);
            return true;
        }
        i = i + 1;
    }
    false
}

fn position(v: &Vec<String>, n: &String) -> (r: Option<usize>)
    ensures
        r matches Some(i) ==> i < v@.len() && views(v@)[i as int] == n@,
        r is None ==> !views(v@).contains(n@),
{
    let mut i: usize = 0;
    while i < v.len()
        invariant
            i <= v@.len(),
            forall|j: int| 0 <= j < i ==> views(v@)[j] != n@,
        decreases v@.len() - i,
    {
        if crate::text::str_eq(v[i].as_str(), n.as_str()) {
            return Some(i);
        }
        i = i + 1;
    }
    None
}

proof fn lemma_distinct_len(a: Seq<Seq<char>>, b: Seq<Seq<char>>)
    requires
        a.no_duplicates(),
        forall|i: int| 0 <= i < a.len() ==> b.contains(#[trigger] a[i]),
    ensures
        a.len() <= b.len(),
{
    a.unique_seq_to_set();
    b.lemma_cardinality_of_set();
    assert(a.to_set().subset_of(b.to_set()));
    vstd::set_lib::lemma_len_subset(a.to_set(), b.to_set());
}

fn visit(
    keys: &Vec<String>,
    deps: &Vec<Vec<String>>,
    Ghost(g): Ghost<Map<Seq<char>, Seq<Seq<char>>>>,
    name: &String,
    stack: &mut Vec<String>,
    order: &mut Vec<String>,
) -> (r: Result<(), ExprError>)
    requires
        graph_of(views(keys@), deps@.map_values(|d: Vec<String>| views(d@)), g),
        is_ordered(g, views(old(order)@)),
        views(old(stack)@).no_duplicates(),
        is_chain(g, views(old(stack)@)),
        forall|i: int| 0 <= i < old(stack)@.len() ==> g.dom().contains(#[trigger] views(old(stack)@)[i]),
        forall|x: Seq<char>| views(old(stack)@).contains(x) ==> !views(old(order)@).contains(x),
        old(stack)@.len() == 0 ==> g.dom().contains(name@),
        old(stack)@.len() > 0 ==> uses(g, views(old(stack)@).last(), name@),
    ensures
        r is Ok ==> {
            &&& views(final(stack)@) == views(old(stack)@)
            &&& is_ordered(g, views(final(order)@))
            &&& views(final(order)@).contains(name@)
            &&& views(final(order)@).take(old(order)@.len() as int) == views(old(order)@)
            &&& old(order)@.len() <= final(order)@.len()
            &&& forall|x: Seq<char>| views(old(stack)@).contains(x) ==> !views(final(order)@).contains(x)
        },
        r matches Err(e) ==> order_error_ok(g, e),
        match (r, walk(g, keys@.len() as nat, name@, views(old(stack)@), views(old(order)@))) {
            (Ok(()), Ok(o)) => views(final(order)@) == o,
            (Err(e), Err(f)) => reports(e, f),
            _ => false,
        },
    decreases keys@.len() - old(stack)@.len(),
{
    let ghost kv = views(keys@);
    let ghost dv = deps@.map_values(|d: Vec<String>| views(d@));
    if has(order, name) {
        return Ok(());
    }
    let ghost s0 = views(stack@);
    if has(stack, name) {
        proof {
            let j = choose|j: int| 0 <= j < s0.len() && s0[j] == name@;
            let p = s0.subrange(j, s0.len() as int).push(name@);
            assert forall|m: int| 0 <= m < p.len() - 1 implies uses(g, #[trigger] p[m], p[m + 1]) by {
                if m < p.len() - 2 {
                    assert(p[m] == s0[j + m]);
                    assert(p[m + 1] == s0[j + m + 1]);
                    assert(uses(g, s0[j + m], s0[j + m + 1]));
                } else {
                    assert(p[m] == s0.last());
                }
            }
            assert(is_chain(g, p));
        }
        return Err(ExprError::Cycle(name.clone()));
    }
    let k = match position(keys, name) {
        None => {
            proof {
                if g.dom().contains(name@) {
                    assert(kv.contains(name@));
                }
                assert(s0.len() > 0);
                assert(uses(g, s0.last(), name@));
            }
            let n = name.clone();
            assert(n@ == name@);
            return Err(ExprError::UnknownName(n));
        },
        Some(k) => k,
    };
    proof {
        assert(kv[k as int] == name@);
        assert(g[name@] == dv[k as int]);
        lemma_distinct_len(s0.push(name@), kv);
    }
    stack.push(name.clone());
    let ghost s1 = views(stack@);
    assert(s1 =~= s0.push(name@));
    let ghost o0 = views(order@);
    let ds = &deps[k];
    assert(views(ds@) == g[name@]);
    let mut i: usize = 0;
    while i < ds.len()
        invariant
            graph_of(kv, dv, g),
            kv == views(keys@),
            dv == deps@.map_values(|d: Vec<String>| views(d@)),
            views(ds@) == g[name@],
            g.dom().contains(name@),
            i <= ds@.len(),
            views(stack@) == s1,
            s1 == s0.push(name@),
            s1.no_duplicates(),
            is_chain(g, s1),
            forall|m: int| 0 <= m < s1.len() ==> g.dom().contains(#[trigger] s1[m]),
            s1.len() <= keys@.len(),
            stack@.len() == s1.len(),
            s0 == views(old(stack)@),
            is_ordered(g, views(order@)),
            views(order@).take(o0.len() as int) == o0,
            o0.len() <= order@.len(),
            forall|x: Seq<char>| s1.contains(x) ==> !views(order@).contains(x),
            forall|m: int| 0 <= m < i ==> views(order@).contains(#[trigger] views(ds@)[m]),
            !o0.contains(name@),
            o0 == views(old(order)@),
            !s0.contains(name@),
            s0.len() < keys@.len(),
            walk_list(g, keys@.len() as nat, g[name@], 0, s1, o0) == walk_list(
                g,
                keys@.len() as nat,
                g[name@],
                i as int,
                s1,
                views(order@),
            ),
        decreases ds@.len() - i,
    {
        let ghost before = views(order@);
        proof {
            assert(uses(g, s1.last(), views(ds@)[i as int]));
        }
        match visit(keys, deps, Ghost(g), &ds[i], stack, order) {
            Err(e) => {
                proof {
                    let nn = keys@.len() as nat;
                    assert(views(ds@)[i as int] == ds@[i as int]@);
                    assert(walk_list(g, nn, g[name@], i as int, s1, before) == match walk(
                        g,
                        nn,
                        g[name@][i as int],
                        s1,
                        before,
                    ) {
                        Ok(o) => walk_list(g, nn, g[name@], i + 1, s1, o),
                        Err(f) => Err(f),
                    });
                    assert(walk(g, nn, name@, s0, o0) == match walk_list(g, nn, g[name@], 0, s1, o0) {
                        Ok(o) => Ok(o.push(name@)),
                        Err(f) => Err(f),
                    });
                }
                return Err(e);
            },
            Ok(()) => {},
        }
        proof {
            let after = views(order@);
            assert forall|m: int| 0 <= m < i + 1 implies after.contains(#[trigger] views(ds@)[m]) by {
                if m < i {
                    let w = choose|w: int| 0 <= w < before.len() && before[w] == views(ds@)[m];
                    assert(after[w] == before[w]);
                }
            }
            assert(after.take(o0.len() as int) =~= before.take(o0.len() as int));
        }
        i = i + 1;
    }
    let ghost st1 = stack@;
    stack.pop();
    assert(stack@ =~= st1.subrange(0, st1.len() - 1));
    assert(views(st1) == s1);
    assert forall|m: int| 0 <= m < s0.len() implies views(stack@)[m] == s0[m] by {
        assert(views(stack@)[m] == st1[m]@);
        assert(views(st1)[m] == s1[m]);
    }
    assert(views(stack@) =~= s0);
    let ghost o1 = views(order@);
    order.push(name.clone());
    proof {
        let o2 = views(order@);
        assert(o2 =~= o1.push(name@));
        assert(s1[s1.len() - 1] == name@);
        assert(s1.contains(name@));
        assert(!o1.contains(name@));
        assert forall|a: int, b: int| 0 <= a < b < o2.len() implies o2[a] != o2[b] by {
            if b == o2.len() - 1 {
                assert(o1[a] == o2[a]);
            } else {
                assert(o1[a] == o2[a] && o1[b] == o2[b]);
            }
        }
        assert forall|m: int, d: Seq<char>| 0 <= m < o2.len() && g[o2[m]].contains(d) implies o2.take(
            m,
        ).contains(d) by {
            if m == o2.len() - 1 {
                assert(o2.take(m) =~= o1);
                let w = choose|w: int| 0 <= w < views(ds@).len() && views(ds@)[w] == d;
                assert(o1.contains(views(ds@)[w]));
            } else {
                assert(o2.take(m) =~= o1.take(m));
                assert(o2[m] == o1[m]);
                assert(o1.take(m).contains(d));
            }
        }
        assert(o2.take(o0.len() as int) =~= o1.take(o0.len() as int));
        assert(o2[o2.len() - 1] == name@);
        assert forall|x: Seq<char>| s0.contains(x) implies !o2.contains(x) by {
            assert(s1.contains(x)) by {
                let w = choose|w: int| 0 <= w < s0.len() && s0[w] == x;
                assert(s1[w] == x);
            }
            assert(x != name@);
        }
    }
    Ok(())
}

// ------------------------------------------------------------------ table

/// The names in `e` are in strictly increasing order.
pub open spec fn keys_sorted(e: Seq<(Seq<char>, Seq<char>)>) -> bool {
    forall|i: int, j: int| 0 <= i < j < e.len() ==> text_lt(#[trigger] e[i].0, #[trigger] e[j].0)
}

pub open spec fn has_key(e: Seq<(Seq<char>, Seq<char>)>, k: Seq<char>) -> bool {
    exists|i: int| 0 <= i < e.len() && #[trigger] e[i].0 == k
}

/// The source stored under `k`, if any.
pub open spec fn lookup(e: Seq<(Seq<char>, Seq<char>)>, k: Seq<char>) -> Option<Seq<char>> {
    if has_key(e, k) {
        Some(e[choose|i: int| 0 <= i < e.len() && #[trigger] e[i].0 == k].1)
    } else {
        None
    }
}

/// How a stored source parses.
pub open spec fn parse_source(src: Seq<char>) -> Result<Term, (int, Seq<char>)> {
    parse_spec(vstd::utf8::encode_utf8(src))
}

/// The error of the first source, in name order, that does not parse.
pub open spec fn first_failure(e: Seq<(Seq<char>, Seq<char>)>) -> Option<(int, Seq<char>)>
    decreases e.len(),
{
    if e.len() == 0 {
        None
    } else {
        match first_failure(e.drop_last()) {
            Some(x) => Some(x),
            None => match parse_source(e.last().1) {
                Err(x) => Some(x),
                Ok(_) => None,
            },
        }
    }
}

/// Each name of the table with the names its expression refers to.
pub open spec fn table_graph(e: Seq<(Seq<char>, Seq<char>)>) -> Map<Seq<char>, Seq<Seq<char>>> {
    Map::new(
        |k: Seq<char>| has_key(e, k),
        |k: Seq<char>|
            match parse_source(lookup(e, k).unwrap()) {
                Ok(t) => names_of(t),
                Err(_) => Seq::empty(),
            },
    )
}

pub proof fn lemma_lookup_at(e: Seq<(Seq<char>, Seq<char>)>, i: int)
    requires
        keys_sorted(e),
        0 <= i < e.len(),
    ensures
        has_key(e, e[i].0),
        lookup(e, e[i].0) == Some(e[i].1),
{
    assert(e[i].0 == e[i].0);
    let j = choose|j: int| 0 <= j < e.len() && #[trigger] e[j].0 == e[i].0;
    if j < i {
        crate::text::lemma_text_lt_irreflexive(e[i].0);
        assert(text_lt(e[j].0, e[i].0));
    } else if i < j {
        crate::text::lemma_text_lt_irreflexive(e[i].0);
        assert(text_lt(e[i].0, e[j].0));
    }
}

proof fn lemma_first_failure_prefix(e: Seq<(Seq<char>, Seq<char>)>, n: int)
    requires
        0 <= n <= e.len(),
        first_failure(e.take(n)) is Some,
    ensures
        first_failure(e) == first_failure(e.take(n)),
    decreases e.len() - n,
{
    if n < e.len() {
        assert(e.take(n + 1).drop_last() =~= e.take(n));
        lemma_first_failure_prefix(e, n + 1);
    } else {
        assert(e.take(n) =~= e);
    }
}

/// A named parameter with its source text.
pub struct Param {
    pub name: String,
    pub source: String,
}

/// A table of named expressions, kept in name order.
pub struct ExprTable {
    params: Vec<Param>,
}

impl ExprTable {
    /// Each name with its source, in name order.
    pub closed spec fn entries(&self) -> Seq<(Seq<char>, Seq<char>)> {
        self.params@.map_values(|p: Param| (p.name@, p.source@))
    }

    #[verifier::type_invariant]
    spec fn sorted(&self) -> bool {
        keys_sorted(self.entries())
    }

    pub fn new() -> (t: ExprTable)
        ensures
            t.entries() == Seq::<(Seq<char>, Seq<char>)>::empty(),
    {
        let t = ExprTable { params: Vec::new() };
        assert(t.entries() =~= Seq::<(Seq<char>, Seq<char>)>::empty());
        t
    }

    /// Set or replace a parameter. A source that does not parse is
    /// refused with its parse error and the table is left as it was.
    pub fn set(&mut self, name: &str, source: &str) -> (r: Result<(), ExprError>)
        ensures
            match (r, parse_source(source@)) {
                (Ok(()), Ok(_)) => forall|k: Seq<char>|
                    #[trigger] lookup(final(self).entries(), k) == if k == name@ {
                        Some(source@)
                    } else {
                        lookup(old(self).entries(), k)
                    },
                (Err(ExprError::Parse { pos, msg }), Err((q, m))) => pos as int == q && msg@ == m
                    && final(self).entries() == old(self).entries(),
                _ => false,
            },
            keys_sorted(final(self).entries()),
    {
        proof {
            use_type_invariant(&*self);
        }
        assert(source.spec_bytes() == vstd::utf8::encode_utf8(source@));
        match parse(source) {
            Err(e) => {
                return Err(e);
            },
            Ok(_) => {},
        }
        let mut ps: Vec<Param> = Vec::new();
        std::mem::swap(&mut ps, &mut self.params);
        let ghost e = ps@.map_values(|p: Param| (p.name@, p.source@));
        let mut i: usize = 0;
        while i < ps.len() && text_less(ps[i].name.as_str(), name)
            invariant
                i <= ps@.len(),
                e == ps@.map_values(|p: Param| (p.name@, p.source@)),
                keys_sorted(e),
                forall|j: int| 0 <= j < i ==> text_lt(#[trigger] e[j].0, name@),
            decreases ps@.len() - i,
        {
            i = i + 1;
        }
        let fresh = Param { name: owned(name), source: owned(source) };
        let replace = i < ps.len() && str_eq(ps[i].name.as_str(), name);
        if replace {
            ps.set(i, fresh);
        } else {
            ps.insert(i, fresh);
        }
        let ghost e2 = ps@.map_values(|p: Param| (p.name@, p.source@));
        let ghost fresh_v = (name@, source@);
        proof {
            if replace {
                assert(e2 =~= e.update(i as int, fresh_v));
            } else {
                assert(e2 =~= e.insert(i as int, fresh_v));
                if i < e.len() {
                    assert(!text_lt(e[i as int].0, name@));
                    assert(e[i as int].0 != name@);
                    crate::text::lemma_text_lt_total(e[i as int].0, name@);
                    assert(text_lt(name@, e[i as int].0));
                }
            }
            assert forall|a: int, b: int| 0 <= a < b < e2.len() implies text_lt(
                #[trigger] e2[a].0,
                #[trigger] e2[b].0,
            ) by {
                if replace {
                    assert(e[i as int].0 == name@);
                    if a == i {
                        assert(e2[b] == e[b]);
                        assert(text_lt(e[a].0, e[b].0));
                    } else if b == i {
                        assert(e2[a] == e[a]);
                        assert(text_lt(e[a].0, e[b].0));
                    } else {
                        assert(e2[a] == e[a] && e2[b] == e[b]);
                        assert(text_lt(e[a].0, e[b].0));
                    }
                } else {
                    if a < i && b == i {
                        assert(e2[a] == e[a]);
                    } else if a < i && b > i {
                        assert(e2[a] == e[a]);
                        assert(e2[b] == e[b - 1]);
                        assert(text_lt(e[a].0, e[b - 1].0));
                    } else if a == i {
                        assert(e2[b] == e[b - 1]);
                        if b - 1 > i {
                            assert(text_lt(e[i as int].0, e[b - 1].0));
                            crate::text::lemma_text_lt_transitive(name@, e[i as int].0, e[b - 1].0);
                        }
                    } else if b < i {
                        assert(e2[a] == e[a] && e2[b] == e[b]);
                        assert(text_lt(e[a].0, e[b].0));
                    } else {
                        assert(e2[a] == e[a - 1] && e2[b] == e[b - 1]);
                        assert(text_lt(e[a - 1].0, e[b - 1].0));
                    }
                }
            }
            assert forall|k: Seq<char>| #[trigger]
                lookup(e2, k) == if k == name@ {
                    Some(source@)
                } else {
                    lookup(e, k)
                } by {
                assert(e2[i as int] == (name@, source@));
                lemma_lookup_at(e2, i as int);
                if k != name@ {
                    if has_key(e, k) {
                        let j = choose|j: int| 0 <= j < e.len() && #[trigger] e[j].0 == k;
                        lemma_lookup_at(e, j);
                        let j2 = if replace || j < i {
                            j
                        } else {
                            j + 1
                        };
                        assert(e2[j2] == e[j]);
                        lemma_lookup_at(e2, j2);
                    } else if has_key(e2, k) {
                        let j = choose|j: int| 0 <= j < e2.len() && #[trigger] e2[j].0 == k;
                        if replace || j < i {
                            assert(e[j] == e2[j]);
                        } else {
                            assert(e[j - 1] == e2[j]);
                        }
                    }
                }
            }
        }
        self.params = ps;
        Ok(())
    }

    /// Remove a parameter, if there is one by that name.
    pub fn remove(&mut self, name: &str)
        ensures
            forall|k: Seq<char>|
                #[trigger] lookup(final(self).entries(), k) == if k == name@ {
                    None
                } else {
                    lookup(old(self).entries(), k)
                },
            keys_sorted(final(self).entries()),
    {
        proof {
            use_type_invariant(&*self);
        }
        let mut ps: Vec<Param> = Vec::new();
        std::mem::swap(&mut ps, &mut self.params);
        let ghost e = ps@.map_values(|p: Param| (p.name@, p.source@));
        let mut i: usize = 0;
        while i < ps.len() && !str_eq(ps[i].name.as_str(), name)
            invariant
                i <= ps@.len(),
                e == ps@.map_values(|p: Param| (p.name@, p.source@)),
                forall|j: int| 0 <= j < i ==> #[trigger] e[j].0 != name@,
            decreases ps@.len() - i,
        {
            i = i + 1;
        }
        let found = i < ps.len();
        if found {
            ps.remove(i);
        }
        let ghost e2 = ps@.map_values(|p: Param| (p.name@, p.source@));
        proof {
            if found {
                assert(e2 =~= e.remove(i as int));
            } else {
                assert(e2 =~= e);
            }
            assert forall|a: int, b: int| 0 <= a < b < e2.len() implies text_lt(
                #[trigger] e2[a].0,
                #[trigger] e2[b].0,
            ) by {
                if found {
                    if b < i {
                        assert(e2[a] == e[a] && e2[b] == e[b]);
                        assert(text_lt(e[a].0, e[b].0));
                    } else if a < i {
                        assert(e2[a] == e[a] && e2[b] == e[b + 1]);
                        assert(text_lt(e[a].0, e[b + 1].0));
                    } else {
                        assert(e2[a] == e[a + 1] && e2[b] == e[b + 1]);
                        assert(text_lt(e[a + 1].0, e[b + 1].0));
                    }
                } else {
                    assert(text_lt(e[a].0, e[b].0));
                }
            }
            assert forall|k: Seq<char>| #[trigger]
                lookup(e2, k) == if k == name@ {
                    None
                } else {
                    lookup(e, k)
                } by {
                if has_key(e2, k) {
                    let j = choose|j: int| 0 <= j < e2.len() && #[trigger] e2[j].0 == k;
                    let j1 = if found && j >= i {
                        j + 1
                    } else {
                        j
                    };
                    assert(e2[j] == e[j1]);
                    lemma_lookup_at(e2, j);
                    lemma_lookup_at(e, j1);
                    if k == name@ && found {
                        crate::text::lemma_text_lt_irreflexive(name@);
                        if j1 < i {
                        } else if j1 > i {
                            assert(text_lt(e[i as int].0, e[j1].0));
                        }
                    }
                } else if has_key(e, k) {
                    let j = choose|j: int| 0 <= j < e.len() && #[trigger] e[j].0 == k;
                    if j < i {
                        assert(e2[j] == e[j]);
                    } else if j > i {
                        assert(e2[j - 1] == e[j]);
                    }
                }
            }
        }
        self.params = ps;
    }

    /// The parameter stored under `name`.
    pub fn get(&self, name: &str) -> (r: Option<&Param>)
        ensures
            match r {
                Some(p) => p.name@ == name@ && lookup(self.entries(), name@) == Some(p.source@),
                None => lookup(self.entries(), name@) is None,
            },
    {
        proof {
            use_type_invariant(self);
        }
        let ghost e = self.entries();
        let mut i: usize = 0;
        while i < self.params.len()
            invariant
                i <= self.params@.len(),
                e == self.entries(),
                keys_sorted(e),
                forall|j: int| 0 <= j < i ==> #[trigger] e[j].0 != name@,
            decreases self.params@.len() - i,
        {
            if str_eq(self.params[i].name.as_str(), name) {
                proof {
                    lemma_lookup_at(e, i as int);
                }
                return Some(&self.params[i]);
            }
            i = i + 1;
        }
        None
    }

    /// Every parameter, in name order.
    pub fn params(&self) -> (r: &Vec<Param>)
        ensures
            r@.map_values(|p: Param| (p.name@, p.source@)) == self.entries(),
    {
        &self.params
    }

    /// The order in which the parameters can be computed: every parameter
    /// after each one its expression refers to.
    ///
    /// A source that does not parse gives its parse error (the first in name
    /// order). Otherwise the result is `Ok` exactly when every referenced
    /// name is in the table and no parameter refers to itself through other
    /// parameters; the order then lists every parameter once. A
    /// `Cycle(n)` error names a parameter on a cycle, and an
    /// `UnknownName(n)` error a name that a parameter refers to and the
    /// table does not hold.
    pub fn evaluation_order(&self) -> (r: Result<Vec<String>, ExprError>)
        ensures
            match first_failure(self.entries()) {
                Some((q, m)) => r matches Err(ExprError::Parse { pos, msg }) && pos as int == q && msg@ == m,
                None => match r {
                    Ok(o) => is_ordered(table_graph(self.entries()), views(o@)) && o@.len()
                        == self.entries().len(),
                    Err(x) => order_error_ok(table_graph(self.entries()), x),
                },
            },
            first_failure(self.entries()) is None ==> match (r, walk_all(
                table_graph(self.entries()),
                self.entries().map_values(|p: (Seq<char>, Seq<char>)| p.0),
                0,
                Seq::empty(),
            )) {
                (Ok(o), Ok(ov)) => views(o@) == ov,
                (Err(x), Err(f)) => reports(x, f),
                _ => false,
            },
    {
        proof {
            use_type_invariant(self);
        }
        let ghost e = self.entries();
        let ghost g = table_graph(e);
        let n = self.params.len();
        let mut keys: Vec<String> = Vec::new();
        let mut deps: Vec<Vec<String>> = Vec::new();
        let mut i: usize = 0;
        while i < n
            invariant
                n == self.params@.len() == e.len(),
                e == self.entries(),
                keys_sorted(e),
                g == table_graph(e),
                i <= n,
                first_failure(e.take(i as int)) is None,
                keys@.len() == i,
                deps@.len() == i,
                forall|j: int| 0 <= j < i ==> #[trigger] keys@[j]@ == e[j].0,
                forall|j: int| 0 <= j < i ==> #[trigger] views(deps@[j]@) == g[e[j].0],
            decreases n - i,
        {
            let src = self.params[i].source.as_str();
            assert(e[i as int].1 == src@);
            assert(e.take(i + 1).drop_last() =~= e.take(i as int));
            match parse(src) {
                Err(x) => {
                    proof {
                        lemma_first_failure_prefix(e, i + 1);
                    }
                    return Err(x);
                },
                Ok(ast) => {
                    let mut d: Vec<String> = Vec::new();
                    ast.names(&mut d);
                    proof {
                        lemma_lookup_at(e, i as int);
                        assert(views(d@) =~= names_of(term_of(ast)));
                    }
                    keys.push(self.params[i].name.clone());
                    deps.push(d);
                },
            }
            i = i + 1;
        }
        proof {
            assert(e.take(n as int) =~= e);
        }
        let ghost kv = views(keys@);
        let ghost dv = deps@.map_values(|d: Vec<String>| views(d@));
        proof {
            assert forall|a: int, b: int| 0 <= a < b < kv.len() implies kv[a] != kv[b] by {
                crate::text::lemma_text_lt_irreflexive(kv[a]);
                assert(text_lt(e[a].0, e[b].0));
            }
            assert forall|j: int| 0 <= j < kv.len() implies g.dom().contains(#[trigger] kv[j]) && g[kv[j]]
                == dv[j] by {
                assert(kv[j] == e[j].0);
            }
            assert forall|k: Seq<char>| #[trigger] g.dom().contains(k) implies kv.contains(k) by {
                let j = choose|j: int| 0 <= j < e.len() && #[trigger] e[j].0 == k;
                assert(kv[j] == k);
            }
            assert(graph_of(kv, dv, g));
            assert(kv =~= e.map_values(|p: (Seq<char>, Seq<char>)| p.0));
        }
        let mut stack: Vec<String> = Vec::new();
        let mut order: Vec<String> = Vec::new();
        let mut t: usize = 0;
        assert(views(order@) =~= Seq::<Seq<char>>::empty());
        while t < n
            invariant
                graph_of(kv, dv, g),
                kv == views(keys@),
                dv == deps@.map_values(|d: Vec<String>| views(d@)),
                keys@.len() == n,
                t <= n,
                e == self.entries(),
                first_failure(e) is None,
                g == table_graph(e),
                stack@.len() == 0,
                is_ordered(g, views(order@)),
                forall|j: int| 0 <= j < t ==> views(order@).contains(#[trigger] kv[j]),
                kv == e.map_values(|p: (Seq<char>, Seq<char>)| p.0),
                walk_all(g, kv, 0, Seq::empty()) == walk_all(g, kv, t as int, views(order@)),
            decreases n - t,
        {
            let ghost before = views(order@);
            assert(views(stack@) =~= Seq::<Seq<char>>::empty());
            assert(kv[t as int] == keys@[t as int]@);
            match visit(&keys, &deps, Ghost(g), &keys[t], &mut stack, &mut order) {
                Err(x) => {
                    proof {
                        assert(walk_all(g, kv, t as int, before) == match walk(g, kv.len(), kv[t as int], Seq::empty(), before) {
                            Ok(o) => walk_all(g, kv, t + 1, o),
                            Err(f) => Err(f),
                        });
                    }
                    return Err(x);
                },
                Ok(()) => {},
            }
            proof {
                assert forall|j: int| 0 <= j < t + 1 implies views(order@).contains(#[trigger] kv[j]) by {
                    if j < t {
                        let w = choose|w: int| 0 <= w < before.len() && before[w] == kv[j];
                        assert(views(order@)[w] == before[w]);
                    }
                }
            }
            t = t + 1;
        }
        proof {
            let o = views(order@);
            assert(walk_all(g, kv, n as int, o) == Ok::<Seq<Seq<char>>, OrderFault>(o));
            crate::expr::lemma_distinct_len(kv, o);
            assert forall|j: int| 0 <= j < o.len() implies kv.contains(#[trigger] o[j]) by {
                assert(g.dom().contains(o[j]));
            }
            crate::expr::lemma_distinct_len(o, kv);
        }
        Ok(order)
    }
}

} // verus!
