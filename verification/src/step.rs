//! STEP (ISO 10303-21) text: tokens, and the entity table `#id -> ENTITY(values)`.
//!
//! Reals are kept as the text they are written with, checked to read as
//! floating point numbers; building geometry from the table is the
//! caller's work.

use vstd::prelude::*;
use std::collections::HashMap;
use vstd::string::StringSliceAdditionalSpecFns;
use crate::text::{decimal, float_text, lossy_text, owned, push_char, push_decimal, text_from_bytes};
use crate::xml::{replace_all, replaced};

verus! {

// ---------------------------------------------------------------- bytes

/// ASCII white space, as `u8::is_ascii_whitespace` (no vertical tab).
pub open spec fn is_space(b: u8) -> bool {
    b == 0x20 || b == 0x09 || b == 0x0A || b == 0x0C || b == 0x0D
}

pub open spec fn is_digit(b: u8) -> bool {
    0x30 <= b <= 0x39
}

pub open spec fn is_letter(b: u8) -> bool {
    (0x41 <= b <= 0x5A) || (0x61 <= b <= 0x7A)
}

/// The kinds of byte that a run of one token is made of.
#[derive(Clone, Copy, Debug, PartialEq, Eq)]
pub enum Class {
    /// `0-9`: an entity number.
    Digit,
    /// Letters, digits, `_`: an enumeration name.
    Word,
    /// Digits and `. + - e E`: a number.
    Number,
    /// Letters, digits, `_ - !`: a keyword.
    Keyword,
    /// Anything but `"`: a binary value.
    Binary,
}

pub open spec fn in_class(b: u8, c: Class) -> bool {
    match c {
        Class::Digit => is_digit(b),
        Class::Word => is_letter(b) || is_digit(b) || b == 0x5F,
        Class::Number => is_digit(b) || b == 0x2E || b == 0x2B || b == 0x2D || b == 0x65 || b == 0x45,
        Class::Keyword => is_letter(b) || is_digit(b) || b == 0x5F || b == 0x2D || b == 0x21,
        Class::Binary => b != 0x22,
    }
}

fn class_has(b: u8, c: Class) -> (r: bool)
    ensures
        r == in_class(b, c),
{
    let digit = 0x30 <= b && b <= 0x39;
    let letter = (0x41 <= b && b <= 0x5A) || (0x61 <= b && b <= 0x7A);
    match c {
        Class::Digit => digit,
        Class::Word => letter || digit || b == 0x5F,
        Class::Number => digit || b == 0x2E || b == 0x2B || b == 0x2D || b == 0x65 || b == 0x45,
        Class::Keyword => letter || digit || b == 0x5F || b == 0x2D || b == 0x21,
        Class::Binary => b != 0x22,
    }
}

/// Where the run of `c` bytes that starts at `i` ends.
pub open spec fn run_end(s: Seq<u8>, i: int, c: Class) -> int
    decreases s.len() - i,
{
    if 0 <= i < s.len() && in_class(s[i], c) {
        run_end(s, i + 1, c)
    } else {
        i
    }
}

pub proof fn lemma_run_end(s: Seq<u8>, i: int, c: Class)
    requires
        0 <= i <= s.len(),
    ensures
        i <= run_end(s, i, c) <= s.len(),
        forall|j: int| i <= j < run_end(s, i, c) ==> in_class(#[trigger] s[j], c),
        run_end(s, i, c) < s.len() ==> !in_class(s[run_end(s, i, c)], c),
    decreases s.len() - i,
{
    if i < s.len() && in_class(s[i], c) {
        lemma_run_end(s, i + 1, c);
    }
}

/// Bytes read as ASCII characters.
pub open spec fn ascii_text(b: Seq<u8>) -> Seq<char> {
    b.map_values(|x: u8| x as char)
}

/// Characters with ASCII letters made capital, as `to_ascii_uppercase`.
pub open spec fn upper_text(t: Seq<char>) -> Seq<char> {
    t.map_values(|c: char| if 'a' <= c <= 'z' { ((c as int) - 32) as char } else { c })
}

/// The value of a run of decimal digits.
pub open spec fn digits_num(b: Seq<u8>) -> nat
    decreases b.len(),
{
    if b.len() == 0 {
        0
    } else {
        digits_num(b.drop_last()) * 10 + (b.last() - 0x30) as nat
    }
}

/// A STEP real made readable as a floating point number: "1." and
/// "1.E-06" are valid STEP reals, written here as "1.0" and "1.0E-06".
pub open spec fn fixed_number(t: Seq<char>) -> Seq<char> {
    let a = replaced(replaced(t, seq!['.', 'E'], seq!['.', '0', 'E']), seq!['.', 'e'], seq!['.', '0', 'e']);
    if a.len() > 0 && a.last() == '.' {
        a.push('0')
    } else {
        a
    }
}

/// The position of the first `*/` at or after `from`.
pub open spec fn comment_end(s: Seq<u8>, from: int) -> Option<int>
    decreases s.len() - from,
{
    if from < 0 || from + 1 >= s.len() {
        None
    } else if s[from] == 0x2A && s[from + 1] == 0x2F {
        Some(from)
    } else {
        comment_end(s, from + 1)
    }
}

pub proof fn lemma_comment_end(s: Seq<u8>, from: int)
    requires
        0 <= from,
    ensures
        comment_end(s, from) matches Some(k) ==> from <= k && k + 1 < s.len(),
    decreases s.len() - from,
{
    if from + 1 < s.len() && !(s[from] == 0x2A && s[from + 1] == 0x2F) {
        lemma_comment_end(s, from + 1);
    }
}

/// Where the next token starts: after white space and `/* comments */`.
pub open spec fn skip_spec(s: Seq<u8>, i: int) -> Result<int, Seq<char>>
    decreases s.len() - i,
{
    if i < 0 || i >= s.len() {
        Ok(i)
    } else if is_space(s[i]) {
        skip_spec(s, i + 1)
    } else if i + 1 < s.len() && s[i] == 0x2F && s[i + 1] == 0x2A {
        match comment_end(s, i + 2) {
            Some(k) => {
                proof {
                    lemma_comment_end(s, i + 2);
                }
                skip_spec(s, k + 2)
            },
            None => Err("a comment is not closed"@),
        }
    } else {
        Ok(i)
    }
}

// ---------------------------------------------------------------- tokens

/// A token as text: numbers and names as written (names in capitals).
pub enum TokV {
    Hash(u64),
    Ident(Seq<char>),
    Num(Seq<char>),
    Str(Seq<char>),
    Enum(Seq<char>),
    Unset,
    LParen,
    RParen,
    Comma,
    Eq,
    Semi,
}

/// One token of a STEP file.
#[derive(Clone, Debug, PartialEq)]
pub enum Tok {
    /// `#12`: an entity number.
    Hash(u64),
    /// A keyword, in capitals.
    Ident(String),
    /// A real or an integer, as written but readable as a float.
    Num(String),
    Str(String),
    /// `.NAME.`: an enumeration value.
    Enum(String),
    /// `$` or `*`.
    Unset,
    LParen,
    RParen,
    Comma,
    Eq,
    Semi,
}

impl View for Tok {
    type V = TokV;

    open spec fn view(&self) -> TokV {
        match self {
            Tok::Hash(n) => TokV::Hash(*n),
            Tok::Ident(s) => TokV::Ident(s@),
            Tok::Num(s) => TokV::Num(s@),
            Tok::Str(s) => TokV::Str(s@),
            Tok::Enum(s) => TokV::Enum(s@),
            Tok::Unset => TokV::Unset,
            Tok::LParen => TokV::LParen,
            Tok::RParen => TokV::RParen,
            Tok::Comma => TokV::Comma,
            Tok::Eq => TokV::Eq,
            Tok::Semi => TokV::Semi,
        }
    }
}

/// A string `'...'` from position `p` on (after the opening quote), where
/// `''` stands for one quote: its bytes and the position after it.
pub open spec fn quoted(s: Seq<u8>, p: int, acc: Seq<u8>) -> Result<(Seq<u8>, int), Seq<char>>
    decreases s.len() - p,
{
    if p < 0 || p >= s.len() {
        Err("a string is not closed"@)
    } else if s[p] == 0x27 && p + 1 < s.len() && s[p + 1] == 0x27 {
        quoted(s, p + 2, acc.push(0x27))
    } else if s[p] == 0x27 {
        Ok((acc, p + 1))
    } else {
        quoted(s, p + 1, acc.push(s[p]))
    }
}

pub proof fn lemma_quoted(s: Seq<u8>, p: int, acc: Seq<u8>)
    requires
        0 <= p,
    ensures
        quoted(s, p, acc) matches Ok((b, q)) ==> p < q <= s.len(),
    decreases s.len() - p,
{
    if p < s.len() {
        if s[p] == 0x27 && p + 1 < s.len() && s[p + 1] == 0x27 {
            lemma_quoted(s, p + 2, acc.push(0x27));
        } else if s[p] != 0x27 {
            lemma_quoted(s, p + 1, acc.push(s[p]));
        }
    }
}

pub open spec fn at_byte(what: Seq<char>, start: int) -> Seq<char> {
    what + " at byte "@ + decimal(start as nat)
}

/// The token at `j`, where no white space is left: the token and the
/// position after it, or why there is none.
pub open spec fn token_at(s: Seq<u8>, j: int) -> Result<(TokV, int), Seq<char>> {
    let c = s[j];
    let k = j + 1;
    if c == 0x28 {
        Ok((TokV::LParen, k))
    } else if c == 0x29 {
        Ok((TokV::RParen, k))
    } else if c == 0x2C {
        Ok((TokV::Comma, k))
    } else if c == 0x3D {
        Ok((TokV::Eq, k))
    } else if c == 0x3B {
        Ok((TokV::Semi, k))
    } else if c == 0x24 || c == 0x2A {
        Ok((TokV::Unset, k))
    } else if c == 0x23 {
        let e = run_end(s, k, Class::Digit);
        if e == k {
            Err(at_byte("a '#' without a number"@, j))
        } else if digits_num(s.subrange(k, e)) > u64::MAX {
            Err(at_byte("entity number too large"@, j))
        } else {
            Ok((TokV::Hash(digits_num(s.subrange(k, e)) as u64), e))
        }
    } else if c == 0x27 {
        match quoted(s, k, Seq::empty()) {
            Err(m) => Err(m),
            Ok((b, q)) => Ok((TokV::Str(lossy_text(b)), q)),
        }
    } else if c == 0x22 {
        let e = run_end(s, k, Class::Binary);
        if e >= s.len() {
            Err("a binary value is not closed"@)
        } else {
            Ok((TokV::Str(lossy_text(s.subrange(k, e))), e + 1))
        }
    } else if c == 0x2E {
        let e = run_end(s, k, Class::Word);
        if e >= s.len() || s[e] != 0x2E || e == k {
            Err(at_byte("a bad enumeration"@, j))
        } else {
            Ok((TokV::Enum(ascii_text(s.subrange(k, e))), e + 1))
        }
    } else if is_digit(c) || c == 0x2B || c == 0x2D {
        let e = run_end(s, j, Class::Number);
        let t = ascii_text(s.subrange(j, e));
        if float_text(fixed_number(t)) {
            Ok((TokV::Num(fixed_number(t)), e))
        } else {
            Err(at_byte("a bad number '"@ + t + "'"@, j))
        }
    } else if is_letter(c) || c == 0x5F || c == 0x21 {
        let e = run_end(s, j, Class::Keyword);
        Ok((TokV::Ident(upper_text(ascii_text(s.subrange(j, e)))), e))
    } else {
        Err(at_byte("an unexpected character '"@ + seq![c as char] + "'"@, j))
    }
}

/// The next token at or after position `i`, and the position after it;
/// `None` at the end of the text.
pub open spec fn next_token(s: Seq<u8>, i: int) -> Result<Option<(TokV, int)>, Seq<char>> {
    match skip_spec(s, i) {
        Err(m) => Err(m),
        Ok(j) => if j < 0 || j >= s.len() {
            Ok(None)
        } else {
            match token_at(s, j) {
                Err(m) => Err(m),
                Ok(t) => Ok(Some(t)),
            }
        },
    }
}

/// Reads STEP text one token at a time.
struct Lexer<'a> {
    s: &'a [u8],
    i: usize,
}

impl<'a> Lexer<'a> {
    fn new(s: &'a str) -> (l: Lexer<'a>)
        ensures
            l.s@ == s.spec_bytes(),
            l.i == 0,
    {
        Lexer { s: s.as_bytes(), i: 0 }
    }

    fn peek_byte(&self) -> (r: Option<u8>)
        ensures
            r == if self.i < self.s@.len() { Some(self.s@[self.i as int]) } else { None::<u8> },
    {
        if self.i < self.s.len() {
            Some(self.s[self.i])
        } else {
            None
        }
    }

    fn skip_space(&mut self) -> (r: Result<(), String>)
        ensures
            final(self).s == old(self).s,
            match (r, skip_spec(old(self).s@, old(self).i as int)) {
                (Ok(()), Ok(j)) => final(self).i as int == j,
                (Err(e), Err(m)) => e@ == m,
                _ => false,
            },
    {
        let ghost s = self.s@;
        let ghost i0 = self.i as int;
        let n = self.s.len();
        loop
            invariant
                self.s@ == s,
                n == s.len(),
                s == old(self).s@,
                self.s == old(self).s,
                i0 == old(self).i,
                skip_spec(s, i0) == skip_spec(s, self.i as int),
            decreases s.len() - self.i,
        {
            match self.peek_byte() {
                Some(c) => {
                    if c == 0x20 || c == 0x09 || c == 0x0A || c == 0x0C || c == 0x0D {
                        self.i = self.i + 1;
                    } else if c == 0x2F && self.i + 1 < self.s.len() && self.s[self.i + 1] == 0x2A {
                        let mut k = self.i + 2;
                        let ghost from = k as int;
                        while k < n - 1 && !(self.s[k] == 0x2A && self.s[k + 1] == 0x2F)
                            invariant
                                self.s@ == s,
                                n == s.len(),
                                2 <= n,
                                k <= n,
                                from <= k,
                                comment_end(s, from) == comment_end(s, k as int),
                            decreases s.len() - k,
                        {
                            k = k + 1;
                        }
                        if k >= n - 1 {
                            proof {
                                assert(comment_end(s, k as int) is None);
                            }
                            return Err(owned("a comment is not closed"));
                        }
                        proof {
                            lemma_comment_end(s, from);
                        }
                        self.i = k + 2;
                    } else {
                        return Ok(());
                    }
                },
                None => return Ok(()),
            }
        }
    }

    /// Moves past the run of `c` bytes at the position; gives where it began.
    fn take_while(&mut self, c: Class) -> (start: usize)
        ensures
            final(self).s == old(self).s,
            start == old(self).i,
            final(self).i as int == run_end(old(self).s@, old(self).i as int, c),
    {
        let start = self.i;
        while self.i < self.s.len() && class_has(self.s[self.i], c)
            invariant
                self.s == old(self).s,
                start == old(self).i,
                run_end(self.s@, start as int, c) == run_end(self.s@, self.i as int, c),
            decreases self.s@.len() - self.i,
        {
            self.i = self.i + 1;
        }
        start
    }

    /// The next token, or `None` at the end of the text.
    fn next(&mut self) -> (r: Result<Option<Tok>, String>)
        ensures
            final(self).s == old(self).s,
            match (r, next_token(old(self).s@, old(self).i as int)) {
                (Ok(None), Ok(None)) => true,
                (Ok(Some(t)), Ok(Some((v, p)))) => t@ == v && final(self).i as int == p,
                (Err(e), Err(m)) => e@ == m,
                _ => false,
            },
    {
        self.skip_space()?;
        let ghost s = self.s@;
        let n = self.s.len();
        let j = self.i;
        let c = match self.peek_byte() {
            None => return Ok(None),
            Some(c) => c,
        };
        let ghost expected = next_token(old(self).s@, old(self).i as int);
        assert(expected == match token_at(s, j as int) {
            Err(m) => Err(m),
            Ok(t) => Ok(Some(t)),
        });
        self.i = self.i + 1;
        let k = self.i;
        let tok = if c == 0x28 {
            Tok::LParen
        } else if c == 0x29 {
            Tok::RParen
        } else if c == 0x2C {
            Tok::Comma
        } else if c == 0x3D {
            Tok::Eq
        } else if c == 0x3B {
            Tok::Semi
        } else if c == 0x24 || c == 0x2A {
            Tok::Unset
        } else if c == 0x23 {
            self.take_while(Class::Digit);
            let e = self.i;
            if e == k {
                return Err(at_byte_text("a '#' without a number", j));
            }
            proof {
                lemma_run_end(s, k as int, Class::Digit);
            }
            match digits_value(self.s, k, e) {
                None => return Err(at_byte_text("entity number too large", j)),
                Some(n) => Tok::Hash(n),
            }
        } else if c == 0x27 {
            let mut out: Vec<u8> = Vec::new();
            assert(expected == match quoted(s, k as int, Seq::empty()) {
                Err(m) => Err(m),
                Ok((b, q)) => Ok(Some((TokV::Str(lossy_text(b)), q))),
            });
            loop
                invariant_except_break
                    quoted(s, k as int, Seq::empty()) == quoted(s, self.i as int, out@),
                invariant
                    self.s@ == s,
                    n == s.len(),
                    self.s == old(self).s,
                    k <= self.i,
                    expected == next_token(old(self).s@, old(self).i as int),
                    expected == match quoted(s, k as int, Seq::empty()) {
                        Err(m) => Err(m),
                        Ok((b, q)) => Ok(Some((TokV::Str(lossy_text(b)), q))),
                    },
                ensures
                    quoted(s, k as int, Seq::empty()) == Ok::<(Seq<u8>, int), Seq<char>>((out@, self.i as int)),
                    self.s@ == s,
                    self.s == old(self).s,
                    expected == match quoted(s, k as int, Seq::empty()) {
                        Err(m) => Err(m),
                        Ok((b, q)) => Ok(Some((TokV::Str(lossy_text(b)), q))),
                    },
                decreases s.len() - self.i,
            {
                match self.peek_byte() {
                    None => return Err(owned("a string is not closed")),
                    Some(b) => {
                        if b == 0x27 && self.i + 1 < self.s.len() && self.s[self.i + 1] == 0x27 {
                            out.push(0x27);
                            self.i = self.i + 2;
                        } else if b == 0x27 {
                            self.i = self.i + 1;
                            break;
                        } else {
                            out.push(b);
                            self.i = self.i + 1;
                        }
                    },
                }
            }
            Tok::Str(text_from_bytes(out.as_slice()))
        } else if c == 0x22 {
            self.take_while(Class::Binary);
            let e = self.i;
            proof {
                lemma_run_end(s, k as int, Class::Binary);
            }
            if e >= self.s.len() {
                return Err(owned("a binary value is not closed"));
            }
            let body = text_from_bytes(&self.s[k..e]);
            self.i = e + 1;
            Tok::Str(body)
        } else if c == 0x2E {
            self.take_while(Class::Word);
            let e = self.i;
            proof {
                lemma_run_end(s, k as int, Class::Word);
            }
            if e >= self.s.len() || self.s[e] != 0x2E || e == k {
                return Err(at_byte_text("a bad enumeration", j));
            }
            let name = ascii_string(self.s, k, e);
            self.i = e + 1;
            Tok::Enum(name)
        } else if (0x30 <= c && c <= 0x39) || c == 0x2B || c == 0x2D {
            self.i = j;
            self.take_while(Class::Number);
            let e = self.i;
            proof {
                lemma_run_end(s, j as int, Class::Number);
            }
            let text = ascii_chars(self.s, j, e);
            let fixed = fix_number(&text);
            let fs = crate::text::string_of(fixed.as_slice(), 0, fixed.len());
            assert(fixed@.subrange(0, fixed@.len() as int) =~= fixed@);
            if !crate::text::float_ok(fs.as_str()) {
                let mut m = owned("a bad number '");
                let t = crate::text::string_of(text.as_slice(), 0, text.len());
                assert(text@.subrange(0, text@.len() as int) =~= text@);
                m.append(t.as_str());
                m.append("'");
                m.append(" at byte ");
                push_decimal(&mut m, j as u64);
                assert(m@ =~= at_byte("a bad number '"@ + text@ + "'"@, j as int));
                return Err(m);
            }
            Tok::Num(fs)
        } else if (0x41 <= c && c <= 0x5A) || (0x61 <= c && c <= 0x7A) || c == 0x5F || c == 0x21 {
            self.i = j;
            self.take_while(Class::Keyword);
            let e = self.i;
            proof {
                lemma_run_end(s, j as int, Class::Keyword);
            }
            Tok::Ident(upper_string(self.s, j, e))
        } else {
            let mut m = owned("an unexpected character '");
            push_char(&mut m, c as char);
            m.append("'");
            m.append(" at byte ");
            push_decimal(&mut m, j as u64);
            assert(m@ =~= at_byte("an unexpected character '"@ + seq![c as char] + "'"@, j as int));
            return Err(m);
        };
        Ok(Some(tok))
    }
}

fn at_byte_text(what: &str, start: usize) -> (r: String)
    ensures
        r@ == at_byte(what@, start as int),
{
    let mut m = owned(what);
    m.append(" at byte ");
    push_decimal(&mut m, start as u64);
    m
}

/// The value of the digits `s[lo..hi]`, if it fits in a `u64`.
fn digits_value(s: &[u8], lo: usize, hi: usize) -> (r: Option<u64>)
    requires
        lo <= hi <= s@.len(),
        forall|j: int| lo <= j < hi ==> is_digit(#[trigger] s@[j]),
    ensures
        match r {
            Some(n) => n as nat == digits_num(s@.subrange(lo as int, hi as int)),
            None => digits_num(s@.subrange(lo as int, hi as int)) > u64::MAX,
        },
{
    let mut acc: u128 = 0;
    let mut big = false;
    let mut k = lo;
    while k < hi
        invariant
            lo <= k <= hi <= s@.len(),
            forall|j: int| lo <= j < hi ==> is_digit(#[trigger] s@[j]),
            !big ==> acc as nat == digits_num(s@.subrange(lo as int, k as int)) && acc <= u64::MAX,
            big ==> digits_num(s@.subrange(lo as int, k as int)) > u64::MAX,
        decreases hi - k,
    {
        assert(s@.subrange(lo as int, k + 1).drop_last() =~= s@.subrange(lo as int, k as int));
        assert(is_digit(s@[k as int]));
        if !big {
            let next = acc * 10 + (s[k] - 0x30) as u128;
            if next > u64::MAX as u128 {
                big = true;
            } else {
                acc = next;
            }
        }
        k = k + 1;
    }
    if big {
        None
    } else {
        Some(acc as u64)
    }
}

/// `s[lo..hi]` read as ASCII characters.
fn ascii_chars(s: &[u8], lo: usize, hi: usize) -> (r: Vec<char>)
    requires
        lo <= hi <= s@.len(),
    ensures
        r@ == ascii_text(s@.subrange(lo as int, hi as int)),
{
    let mut r: Vec<char> = Vec::new();
    let mut k = lo;
    while k < hi
        invariant
            lo <= k <= hi <= s@.len(),
            r@ == ascii_text(s@.subrange(lo as int, k as int)),
        decreases hi - k,
    {
        r.push(s[k] as char);
        assert(r@ =~= ascii_text(s@.subrange(lo as int, k + 1)));
        k = k + 1;
    }
    r
}

fn ascii_string(s: &[u8], lo: usize, hi: usize) -> (r: String)
    requires
        lo <= hi <= s@.len(),
    ensures
        r@ == ascii_text(s@.subrange(lo as int, hi as int)),
{
    let v = ascii_chars(s, lo, hi);
    assert(v@.subrange(0, v@.len() as int) =~= v@);
    crate::text::string_of(v.as_slice(), 0, v.len())
}

fn upper_string(s: &[u8], lo: usize, hi: usize) -> (r: String)
    requires
        lo <= hi <= s@.len(),
    ensures
        r@ == upper_text(ascii_text(s@.subrange(lo as int, hi as int))),
{
    let mut r = String::new();
    let mut k = lo;
    while k < hi
        invariant
            lo <= k <= hi <= s@.len(),
            r@ == upper_text(ascii_text(s@.subrange(lo as int, k as int))),
        decreases hi - k,
    {
        let c = s[k] as char;
        push_char(&mut r, if 'a' <= c && c <= 'z' { ((c as u8) - 32) as char } else { c });
        assert(r@ =~= upper_text(ascii_text(s@.subrange(lo as int, k + 1))));
        k = k + 1;
    }
    r
}

/// A number's text made readable as a float, as `fixed_number`.
fn fix_number(t: &Vec<char>) -> (r: Vec<char>)
    ensures
        r@ == fixed_number(t@),
{
    let p1 = vec!['.', 'E'];
    let r1 = vec!['.', '0', 'E'];
    let p2 = vec!['.', 'e'];
    let r2 = vec!['.', '0', 'e'];
    assert(p1@ == seq!['.', 'E'] && r1@ == seq!['.', '0', 'E']);
    assert(p2@ == seq!['.', 'e'] && r2@ == seq!['.', '0', 'e']);
    let a = replace_all(t, &p1, &r1);
    let mut b = replace_all(&a, &p2, &r2);
    if b.len() > 0 && b[b.len() - 1] == '.' {
        b.push('0');
    }
    b
}

/// Every token returns a position past where it started.
pub proof fn lemma_skip(s: Seq<u8>, i: int)
    requires
        0 <= i <= s.len(),
    ensures
        skip_spec(s, i) matches Ok(j) ==> i <= j <= s.len(),
    decreases s.len() - i,
{
    if i < s.len() {
        if is_space(s[i]) {
            lemma_skip(s, i + 1);
        } else if i + 1 < s.len() && s[i] == 0x2F && s[i + 1] == 0x2A {
            lemma_comment_end(s, i + 2);
            if let Some(k) = comment_end(s, i + 2) {
                lemma_skip(s, k + 2);
            }
        }
    }
}

pub proof fn lemma_next_token(s: Seq<u8>, i: int)
    requires
        0 <= i <= s.len(),
    ensures
        next_token(s, i) matches Ok(Some((t, p))) ==> i < p <= s.len(),
{
    lemma_skip(s, i);
    if let Ok(j) = skip_spec(s, i) {
        if 0 <= j < s.len() {
            lemma_run_end(s, j + 1, Class::Digit);
            lemma_run_end(s, j + 1, Class::Binary);
            lemma_run_end(s, j + 1, Class::Word);
            lemma_run_end(s, j, Class::Number);
            lemma_run_end(s, j, Class::Keyword);
            lemma_quoted(s, j + 1, Seq::empty());
        }
    }
}

/// The tokens of `s` from `i` on, and the error that stops the lexer, if
/// one does before the end.
pub open spec fn tokens_from(s: Seq<u8>, i: int) -> (Seq<TokV>, Option<Seq<char>>)
    decreases s.len() + 1 - i,
{
    if i < 0 || i > s.len() {
        (Seq::empty(), None)
    } else {
        match next_token(s, i) {
            Err(m) => (Seq::empty(), Some(m)),
            Ok(None) => (Seq::empty(), None),
            Ok(Some((t, j))) => {
                proof {
                    lemma_next_token(s, i);
                }
                let r = tokens_from(s, j);
                (seq![t] + r.0, r.1)
            },
        }
    }
}

// ---------------------------------------------------------------- values and entities

/// Where in the file a token was not expected.
#[derive(Clone, Copy, Debug, PartialEq, Eq)]
pub enum Place {
    /// Among the values of a parameter list.
    Params,
    /// After a value, where a `,` or `)` belongs.
    ListEnd,
    /// In the header section.
    Header,
    /// Where an entity `#n=` should start.
    EntityStart,
    /// Inside the complex entity with this number.
    Complex(u64),
    /// After `#n=`.
    AfterEq(u64),
    /// Between sections.
    BetweenSections,
}

/// Why a STEP text could not be read.
#[derive(Debug)]
pub enum StepError {
    /// A message as it stands.
    Text(String),
    /// The first token was wanted, the second was found.
    Expected(Tok, Tok),
    /// A token that has no place where it stands.
    Unexpected(Tok, Place),
}

pub enum ErrV {
    Text(Seq<char>),
    Expected(TokV, TokV),
    Unexpected(TokV, Place),
}

impl View for StepError {
    type V = ErrV;

    open spec fn view(&self) -> ErrV {
        match self {
            StepError::Text(m) => ErrV::Text(m@),
            StepError::Expected(a, b) => ErrV::Expected(a@, b@),
            StepError::Unexpected(a, p) => ErrV::Unexpected(a@, *p),
        }
    }
}

/// One parameter value of an entity.
#[derive(Debug, PartialEq)]
pub enum Value {
    Ref(u64),
    /// A real or an integer, as written but readable as a float.
    Num(String),
    Str(String),
    Enum(String),
    List(Vec<Value>),
    /// A typed value such as `LENGTH_MEASURE(1.E-06)`.
    Typed(String, Vec<Value>),
    Unset,
}

pub enum ValueV {
    Ref(u64),
    Num(Seq<char>),
    Str(Seq<char>),
    Enum(Seq<char>),
    List(Seq<ValueV>),
    Typed(Seq<char>, Seq<ValueV>),
    Unset,
}

pub open spec fn value_view(v: Value) -> ValueV
    decreases v,
{
    match v {
        Value::Ref(r) => ValueV::Ref(r),
        Value::Num(s) => ValueV::Num(s@),
        Value::Str(s) => ValueV::Str(s@),
        Value::Enum(s) => ValueV::Enum(s@),
        Value::List(vs) => ValueV::List(values_view(vs@)),
        Value::Typed(n, vs) => ValueV::Typed(n@, values_view(vs@)),
        Value::Unset => ValueV::Unset,
    }
}

pub open spec fn values_view(s: Seq<Value>) -> Seq<ValueV>
    decreases s,
{
    if s.len() == 0 {
        Seq::empty()
    } else {
        values_view(s.drop_last()).push(value_view(s.last()))
    }
}

proof fn lemma_values_view_push(s: Seq<Value>, v: Value)
    ensures
        values_view(s.push(v)) == values_view(s).push(value_view(v)),
{
    assert(s.push(v).drop_last() =~= s);
}

/// The entity numbers among the values, in order.
pub open spec fn refs_of(s: Seq<Value>) -> Seq<u64>
    decreases s.len(),
{
    if s.len() == 0 {
        Seq::empty()
    } else {
        match s.last() {
            Value::Ref(r) => refs_of(s.drop_last()).push(r),
            _ => refs_of(s.drop_last()),
        }
    }
}

impl Value {
    /// The entity number of a reference.
    pub fn as_ref_id(&self) -> (r: Option<u64>)
        ensures
            r == match self {
                Value::Ref(n) => Some(*n),
                _ => None::<u64>,
            },
    {
        match self {
            Value::Ref(r) => Some(*r),
            _ => None,
        }
    }

    /// `.T.` and `.F.` as booleans.
    pub fn as_bool(&self) -> (r: Option<bool>)
        ensures
            r == match self {
                Value::Enum(e) => if e@ == "T"@ {
                    Some(true)
                } else if e@ == "F"@ {
                    Some(false)
                } else {
                    None::<bool>
                },
                _ => None::<bool>,
            },
    {
        match self {
            Value::Enum(e) => if crate::text::str_eq(e.as_str(), "T") {
                Some(true)
            } else if crate::text::str_eq(e.as_str(), "F") {
                Some(false)
            } else {
                None
            },
            _ => None,
        }
    }

    /// The values of a list; none for anything else.
    pub fn as_list(&self) -> (r: &[Value])
        ensures
            r@ == match self {
                Value::List(v) => v@,
                _ => Seq::<Value>::empty(),
            },
    {
        match self {
            Value::List(v) => v.as_slice(),
            _ => &[],
        }
    }

    /// The entity numbers in a list, in order.
    pub fn refs(&self) -> (r: Vec<u64>)
        ensures
            r@ == refs_of(
                match self {
                    Value::List(v) => v@,
                    _ => Seq::<Value>::empty(),
                },
            ),
    {
        let l = self.as_list();
        let mut out: Vec<u64> = Vec::new();
        let mut k: usize = 0;
        while k < l.len()
            invariant
                k <= l@.len(),
                out@ == refs_of(l@.subrange(0, k as int)),
            decreases l@.len() - k,
        {
            assert(l@.subrange(0, k + 1).drop_last() =~= l@.subrange(0, k as int));
            match l[k].as_ref_id() {
                Some(r) => out.push(r),
                None => {},
            }
            k = k + 1;
        }
        assert(l@.subrange(0, l@.len() as int) =~= l@);
        out
    }
}

/// An entity instance. A simple entity has one part; a complex entity,
/// written `#n=( A(..) B(..) )`, has several.
#[derive(Debug)]
pub struct Entity {
    pub parts: Vec<(String, Vec<Value>)>,
}

pub type PartV = (Seq<char>, Seq<ValueV>);

pub open spec fn parts_view(p: Seq<(String, Vec<Value>)>) -> Seq<PartV> {
    p.map_values(|x: (String, Vec<Value>)| (x.0@, values_view(x.1@)))
}

impl Entity {
    /// The entity's name, or "complex entity" for one of several parts.
    pub fn name(&self) -> (r: &str)
        ensures
            r@ == if self.parts@.len() == 1 { self.parts@[0].0@ } else { "complex entity"@ },
    {
        if self.parts.len() == 1 {
            self.parts[0].0.as_str()
        } else {
            "complex entity"
        }
    }

    /// The values of the first part with this name.
    pub fn part(&self, name: &str) -> (r: Option<&[Value]>)
        ensures
            match r {
                Some(v) => exists|k: int|
                    0 <= k < self.parts@.len() && #[trigger] self.parts@[k].0@ == name@ && v@ == self.parts@[k].1@
                        && forall|j: int| 0 <= j < k ==> #[trigger] self.parts@[j].0@ != name@,
                None => forall|k: int| 0 <= k < self.parts@.len() ==> #[trigger] self.parts@[k].0@ != name@,
            },
    {
        let mut k: usize = 0;
        while k < self.parts.len()
            invariant
                k <= self.parts@.len(),
                forall|j: int| 0 <= j < k ==> #[trigger] self.parts@[j].0@ != name@,
            decreases self.parts@.len() - k,
        {
            if crate::text::str_eq(self.parts[k].0.as_str(), name) {
                return Some(self.parts[k].1.as_slice());
            }
            k = k + 1;
        }
        None
    }

    /// Whether one of the parts has this name.
    pub fn has(&self, name: &str) -> (r: bool)
        ensures
            r == exists|k: int| 0 <= k < self.parts@.len() && #[trigger] self.parts@[k].0@ == name@,
    {
        let mut k: usize = 0;
        while k < self.parts.len()
            invariant
                k <= self.parts@.len(),
                forall|j: int| 0 <= j < k ==> #[trigger] self.parts@[j].0@ != name@,
            decreases self.parts@.len() - k,
        {
            if crate::text::str_eq(self.parts[k].0.as_str(), name) {
                return true;
            }
            k = k + 1;
        }
        false
    }
}

// ---------------------------------------------------------------- the grammar over tokens

/// The next token from position `p`: none at the end, or the error that
/// stopped the lexer there.
pub open spec fn tk_next(t: Seq<TokV>, tail: Option<Seq<char>>, p: int) -> Result<(Option<TokV>, int), ErrV> {
    if 0 <= p < t.len() {
        Ok((Some(t[p]), p + 1))
    } else {
        match tail {
            Some(m) => Err(ErrV::Text(m)),
            None => Ok((None, p)),
        }
    }
}

/// A token that must be there.
pub open spec fn tk_need(t: Seq<TokV>, tail: Option<Seq<char>>, p: int) -> Result<(TokV, int), ErrV> {
    match tk_next(t, tail, p) {
        Err(e) => Err(e),
        Ok((None, _)) => Err(ErrV::Text("the file ends in the middle of an entity"@)),
        Ok((Some(x), q)) => Ok((x, q)),
    }
}

/// A token that must be `want`.
pub open spec fn tk_expect(t: Seq<TokV>, tail: Option<Seq<char>>, p: int, want: TokV) -> Result<int, ErrV> {
    match tk_need(t, tail, p) {
        Err(e) => Err(e),
        Ok((got, q)) => if got == want {
            Ok(q)
        } else {
            Err(ErrV::Expected(want, got))
        },
    }
}

/// How deeply lists may nest.
pub const MAX_DEPTH: usize = 64;

/// A value at `p`.
pub open spec fn p_value(t: Seq<TokV>, tail: Option<Seq<char>>, p: int, depth: nat) -> Result<(ValueV, int), ErrV>
    decreases t.len() - p, 0nat,
{
    match tk_need(t, tail, p) {
        Err(e) => Err(e),
        Ok((x, q)) => match x {
            TokV::Hash(r) => Ok((ValueV::Ref(r), q)),
            TokV::Num(s) => Ok((ValueV::Num(s), q)),
            TokV::Str(s) => Ok((ValueV::Str(s), q)),
            TokV::Enum(s) => Ok((ValueV::Enum(s), q)),
            TokV::Unset => Ok((ValueV::Unset, q)),
            TokV::LParen => match p_list(t, tail, q, depth + 1) {
                Err(e) => Err(e),
                Ok((vs, q1)) => Ok((ValueV::List(vs), q1)),
            },
            TokV::Ident(name) => match tk_expect(t, tail, q, TokV::LParen) {
                Err(e) => Err(e),
                Ok(q1) => match p_list(t, tail, q1, depth + 1) {
                    Err(e) => Err(e),
                    Ok((vs, q2)) => Ok((ValueV::Typed(name, vs), q2)),
                },
            },
            other => Err(ErrV::Unexpected(other, Place::Params)),
        },
    }
}

/// The values of a list whose `(` is read, up to and with its `)`.
pub open spec fn p_list(t: Seq<TokV>, tail: Option<Seq<char>>, p: int, depth: nat) -> Result<(Seq<ValueV>, int), ErrV>
    decreases t.len() - p, 2nat,
{
    if depth > MAX_DEPTH {
        Err(ErrV::Text("lists nest too deeply"@))
    } else {
        match tk_next(t, tail, p) {
            Err(e) => Err(e),
            Ok((Some(TokV::RParen), q)) => Ok((Seq::empty(), q)),
            Ok(_) => p_items(t, tail, p, depth, Seq::empty()),
        }
    }
}

/// The values `v, v, ... )` from `p`, after the values `acc`.
pub open spec fn p_items(
    t: Seq<TokV>,
    tail: Option<Seq<char>>,
    p: int,
    depth: nat,
    acc: Seq<ValueV>,
) -> Result<(Seq<ValueV>, int), ErrV>
    decreases t.len() - p, 1nat,
{
    match p_value(t, tail, p, depth) {
        Err(e) => Err(e),
        Ok((v, q)) => if q <= p {
            Err(ErrV::Text(Seq::empty()))
        } else {
            match tk_need(t, tail, q) {
                Err(e) => Err(e),
                Ok((TokV::Comma, q1)) => p_items(t, tail, q1, depth, acc.push(v)),
                Ok((TokV::RParen, q1)) => Ok((acc.push(v), q1)),
                Ok((x, _)) => Err(ErrV::Unexpected(x, Place::ListEnd)),
            }
        },
    }
}

/// A `NAME(values)` record whose name is read.
pub open spec fn p_record(t: Seq<TokV>, tail: Option<Seq<char>>, p: int, name: Seq<char>) -> Result<(PartV, int), ErrV> {
    match tk_expect(t, tail, p, TokV::LParen) {
        Err(e) => Err(e),
        Ok(q) => match p_list(t, tail, q, 1) {
            Err(e) => Err(e),
            Ok((vs, q1)) => Ok(((name, vs), q1)),
        },
    }
}

/// The header records from `p` up to and with `ENDSEC`.
pub open spec fn p_header(t: Seq<TokV>, tail: Option<Seq<char>>, p: int) -> Result<int, ErrV>
    decreases t.len() - p,
{
    match tk_need(t, tail, p) {
        Err(e) => Err(e),
        Ok((x, q)) => match x {
            TokV::Ident(n) => if n == "ENDSEC"@ {
                Ok(q)
            } else {
                match p_record(t, tail, q, n) {
                    Err(e) => Err(e),
                    Ok((_, q1)) => match tk_expect(t, tail, q1, TokV::Semi) {
                        Err(e) => Err(e),
                        Ok(q2) => if q2 <= p {
                            Err(ErrV::Text(Seq::empty()))
                        } else {
                            p_header(t, tail, q2)
                        },
                    },
                }
            },
            other => Err(ErrV::Unexpected(other, Place::Header)),
        },
    }
}

/// The parts of a complex entity from `p` up to and with its `)`.
pub open spec fn p_complex(t: Seq<TokV>, tail: Option<Seq<char>>, p: int, id: u64, acc: Seq<PartV>) -> Result<
    (Seq<PartV>, int),
    ErrV,
>
    decreases t.len() - p,
{
    match tk_need(t, tail, p) {
        Err(e) => Err(e),
        Ok((x, q)) => match x {
            TokV::RParen => Ok((acc, q)),
            TokV::Ident(n) => match p_record(t, tail, q, n) {
                Err(e) => Err(e),
                Ok((r, q1)) => if q1 <= p || q1 > t.len() {
                    Err(ErrV::Text(Seq::empty()))
                } else {
                    p_complex(t, tail, q1, id, acc.push(r))
                },
            },
            other => Err(ErrV::Unexpected(other, Place::Complex(id))),
        },
    }
}

/// The parts of entity `id` after its `#id=`.
pub open spec fn p_parts(t: Seq<TokV>, tail: Option<Seq<char>>, p: int, id: u64) -> Result<(Seq<PartV>, int), ErrV> {
    match tk_need(t, tail, p) {
        Err(e) => Err(e),
        Ok((x, q)) => match x {
            TokV::Ident(n) => match p_record(t, tail, q, n) {
                Err(e) => Err(e),
                Ok((r, q1)) => Ok((seq![r], q1)),
            },
            TokV::LParen => match p_complex(t, tail, q, id, Seq::empty()) {
                Err(e) => Err(e),
                Ok((ps, q1)) => if ps.len() == 0 {
                    Err(ErrV::Text("complex entity #"@ + decimal(id as nat) + " is empty"@))
                } else {
                    Ok((ps, q1))
                },
            },
            other => Err(ErrV::Unexpected(other, Place::AfterEq(id))),
        },
    }
}

/// The entities from `p` up to and with `ENDSEC`, added to `ents`.
pub open spec fn p_entities(t: Seq<TokV>, tail: Option<Seq<char>>, p: int, ents: Map<u64, Seq<PartV>>) -> Result<
    (Map<u64, Seq<PartV>>, int),
    ErrV,
>
    decreases t.len() - p,
{
    match tk_need(t, tail, p) {
        Err(e) => Err(e),
        Ok((x, q)) => match x {
            TokV::Hash(id) => match tk_expect(t, tail, q, TokV::Eq) {
                Err(e) => Err(e),
                Ok(q1) => match p_parts(t, tail, q1, id) {
                    Err(e) => Err(e),
                    Ok((ps, q2)) => match tk_expect(t, tail, q2, TokV::Semi) {
                        Err(e) => Err(e),
                        Ok(q3) => if q3 <= p {
                            Err(ErrV::Text(Seq::empty()))
                        } else {
                            p_entities(t, tail, q3, ents.insert(id, ps))
                        },
                    },
                },
            },
            TokV::Ident(n) => if n == "ENDSEC"@ {
                Ok((ents, q))
            } else {
                Err(ErrV::Unexpected(TokV::Ident(n), Place::EntityStart))
            },
            other => Err(ErrV::Unexpected(other, Place::EntityStart)),
        },
    }
}

/// The optional name and schema list after `DATA`.
pub open spec fn p_data_head(t: Seq<TokV>, tail: Option<Seq<char>>, q: int) -> Result<int, ErrV> {
    match tk_next(t, tail, q) {
        Err(e) => Err(e),
        Ok((Some(TokV::LParen), q1)) => match p_list(t, tail, q1, 1) {
            Err(e) => Err(e),
            Ok((_, q2)) => Ok(q2),
        },
        Ok(_) => Ok(q),
    }
}

/// The sections from `p` up to and with `END-ISO-10303-21`.
pub open spec fn p_sections(
    t: Seq<TokV>,
    tail: Option<Seq<char>>,
    p: int,
    ents: Map<u64, Seq<PartV>>,
    saw_data: bool,
) -> Result<Map<u64, Seq<PartV>>, ErrV>
    decreases t.len() - p,
{
    match tk_need(t, tail, p) {
        Err(e) => Err(e),
        Ok((x, q)) => match x {
            TokV::Ident(n) => if n == "END-ISO-10303-21"@ {
                if saw_data {
                    Ok(ents)
                } else {
                    Err(ErrV::Text("the STEP file has no DATA section"@))
                }
            } else if n == "HEADER"@ {
                match tk_expect(t, tail, q, TokV::Semi) {
                    Err(e) => Err(e),
                    Ok(q1) => match p_header(t, tail, q1) {
                        Err(e) => Err(e),
                        Ok(q2) => match tk_expect(t, tail, q2, TokV::Semi) {
                            Err(e) => Err(e),
                            Ok(q3) => if q3 <= p {
                                Err(ErrV::Text(Seq::empty()))
                            } else {
                                p_sections(t, tail, q3, ents, saw_data)
                            },
                        },
                    },
                }
            } else if n == "DATA"@ {
                match p_data_head(t, tail, q) {
                    Err(e) => Err(e),
                    Ok(q1) => match tk_expect(t, tail, q1, TokV::Semi) {
                        Err(e) => Err(e),
                        Ok(q2) => match p_entities(t, tail, q2, ents) {
                            Err(e) => Err(e),
                            Ok((ents2, q3)) => match tk_expect(t, tail, q3, TokV::Semi) {
                                Err(e) => Err(e),
                                Ok(q4) => if q4 <= p {
                                    Err(ErrV::Text(Seq::empty()))
                                } else {
                                    p_sections(t, tail, q4, ents2, true)
                                },
                            },
                        },
                    },
                }
            } else {
                Err(ErrV::Unexpected(TokV::Ident(n), Place::BetweenSections))
            },
            other => Err(ErrV::Unexpected(other, Place::BetweenSections)),
        },
    }
}

/// The entity table of a whole file; a later entity with the same number
/// replaces the earlier.
pub open spec fn p_file(t: Seq<TokV>, tail: Option<Seq<char>>) -> Result<Map<u64, Seq<PartV>>, ErrV> {
    match tk_next(t, tail, 0) {
        Err(e) => Err(e),
        Ok((Some(TokV::Ident(n)), q)) => if n == "ISO-10303-21"@ {
            match tk_expect(t, tail, q, TokV::Semi) {
                Err(e) => Err(e),
                Ok(q1) => p_sections(t, tail, q1, Map::empty(), false),
            }
        } else {
            Err(ErrV::Text("not a STEP file: it does not start with ISO-10303-21"@))
        },
        Ok(_) => Err(ErrV::Text("not a STEP file: it does not start with ISO-10303-21"@)),
    }
}

/// The entity table of STEP text.
pub open spec fn step_table(s: Seq<u8>) -> Result<Map<u64, Seq<PartV>>, ErrV> {
    let r = tokens_from(s, 0);
    p_file(r.0, r.1)
}

// ---------------------------------------------------------------- the reader

pub open spec fn toks_view(t: Seq<Tok>) -> Seq<TokV> {
    t.map_values(|x: Tok| x@)
}

pub open spec fn tail_view(o: Option<String>) -> Option<Seq<char>> {
    match o {
        Some(m) => Some(m@),
        None => None,
    }
}

/// Every token of `text`, and the error that stopped the lexer, if one did.
fn lex_all(text: &str) -> (r: (Vec<Tok>, Option<String>))
    ensures
        (toks_view(r.0@), tail_view(r.1)) == tokens_from(text.spec_bytes(), 0),
{
    let mut l = Lexer::new(text);
    let ghost s = text.spec_bytes();
    let mut out: Vec<Tok> = Vec::new();
    assert(toks_view(out@) + tokens_from(s, 0).0 =~= tokens_from(s, 0).0);
    loop
        invariant
            l.s@ == s,
            s == text.spec_bytes(),
            0 <= l.i <= s.len(),
            tokens_from(s, 0) == (toks_view(out@) + tokens_from(s, l.i as int).0, tokens_from(
                s,
                l.i as int,
            ).1),
        decreases s.len() - l.i,
    {
        let ghost i0 = l.i as int;
        let ghost before = out@;
        proof {
            lemma_next_token(s, i0);
        }
        match l.next() {
            Err(e) => {
                assert(tokens_from(s, i0) == (Seq::<TokV>::empty(), Some(e@)));
                assert(toks_view(out@) + Seq::<TokV>::empty() =~= toks_view(out@));
                return (out, Some(e));
            },
            Ok(None) => {
                assert(tokens_from(s, i0) == (Seq::<TokV>::empty(), None::<Seq<char>>));
                assert(toks_view(out@) + Seq::<TokV>::empty() =~= toks_view(out@));
                return (out, None);
            },
            Ok(Some(t)) => {
                let ghost tv = t@;
                out.push(t);
                assert(toks_view(out@) =~= toks_view(before).push(tv));
                assert(toks_view(before) + (seq![tv] + tokens_from(s, l.i as int).0) =~= toks_view(out@)
                    + tokens_from(s, l.i as int).0);
            },
        }
    }
}

/// A copy of a token.
fn tok_copy(t: &Tok) -> (r: Tok)
    ensures
        r@ == t@,
{
    match t {
        Tok::Hash(n) => Tok::Hash(*n),
        Tok::Ident(s) => Tok::Ident(s.clone()),
        Tok::Num(s) => Tok::Num(s.clone()),
        Tok::Str(s) => Tok::Str(s.clone()),
        Tok::Enum(s) => Tok::Enum(s.clone()),
        Tok::Unset => Tok::Unset,
        Tok::LParen => Tok::LParen,
        Tok::RParen => Tok::RParen,
        Tok::Comma => Tok::Comma,
        Tok::Eq => Tok::Eq,
        Tok::Semi => Tok::Semi,
    }
}

/// Whether two tokens are the same.
fn same_tok(a: &Tok, b: &Tok) -> (r: bool)
    ensures
        r == (a@ == b@),
{
    match (a, b) {
        (Tok::Hash(x), Tok::Hash(y)) => *x == *y,
        (Tok::Ident(x), Tok::Ident(y)) => crate::text::str_eq(x.as_str(), y.as_str()),
        (Tok::Num(x), Tok::Num(y)) => crate::text::str_eq(x.as_str(), y.as_str()),
        (Tok::Str(x), Tok::Str(y)) => crate::text::str_eq(x.as_str(), y.as_str()),
        (Tok::Enum(x), Tok::Enum(y)) => crate::text::str_eq(x.as_str(), y.as_str()),
        (Tok::Unset, Tok::Unset) => true,
        (Tok::LParen, Tok::LParen) => true,
        (Tok::RParen, Tok::RParen) => true,
        (Tok::Comma, Tok::Comma) => true,
        (Tok::Eq, Tok::Eq) => true,
        (Tok::Semi, Tok::Semi) => true,
        _ => false,
    }
}

/// The error that stopped the lexer, as a reader's error.
fn tail_error(tail: &Option<String>, otherwise: &str) -> (r: StepError)
    ensures
        r@ == ErrV::Text(
            match tail {
                Some(m) => m@,
                None => otherwise@,
            },
        ),
{
    match tail {
        Some(m) => StepError::Text(m.clone()),
        None => StepError::Text(owned(otherwise)),
    }
}

/// The token at `p`, which must be there.
fn need(t: &Vec<Tok>, tail: &Option<String>, p: usize) -> (r: Result<(Tok, usize), StepError>)
    ensures
        match (r, tk_need(toks_view(t@), tail_view(*tail), p as int)) {
            (Ok((x, q)), Ok((xv, qv))) => x@ == xv && q == qv && p < t@.len() && q == p + 1,
            (Err(e), Err(ev)) => e@ == ev,
            _ => false,
        },
{
    if p < t.len() {
        Ok((tok_copy(&t[p]), p + 1))
    } else {
        Err(tail_error(tail, "the file ends in the middle of an entity"))
    }
}

/// The token at `p`, which must be `want`.
fn expect(t: &Vec<Tok>, tail: &Option<String>, p: usize, want: Tok) -> (r: Result<usize, StepError>)
    ensures
        match (r, tk_expect(toks_view(t@), tail_view(*tail), p as int, want@)) {
            (Ok(q), Ok(qv)) => q == qv && p < t@.len() && q == p + 1,
            (Err(e), Err(ev)) => e@ == ev,
            _ => false,
        },
{
    match need(t, tail, p) {
        Err(e) => Err(e),
        Ok((got, q)) => if same_tok(&got, &want) {
            Ok(q)
        } else {
            Err(StepError::Expected(want, got))
        },
    }
}

/// Whether the token at `p` is there and is `)`.
fn at_rparen(t: &Vec<Tok>, p: usize) -> (r: bool)
    ensures
        r == (p < t@.len() && t@[p as int]@ == TokV::RParen),
{
    if p < t.len() {
        match &t[p] {
            Tok::RParen => true,
            _ => false,
        }
    } else {
        false
    }
}

/// A value at `p`.
fn value(t: &Vec<Tok>, tail: &Option<String>, p: usize, depth: usize) -> (r: Result<(Value, usize), StepError>)
    requires
        p <= t@.len(),
        depth <= MAX_DEPTH,
    ensures
        match (r, p_value(toks_view(t@), tail_view(*tail), p as int, depth as nat)) {
            (Ok((v, q)), Ok((vv, qv))) => value_view(v) == vv && q == qv && p < q <= t@.len(),
            (Err(e), Err(ev)) => e@ == ev,
            _ => false,
        },
    decreases t@.len() - p, 0nat,
{
    match need(t, tail, p) {
        Err(e) => Err(e),
        Ok((x, q)) => match x {
            Tok::Hash(n) => Ok((Value::Ref(n), q)),
            Tok::Num(s) => Ok((Value::Num(s), q)),
            Tok::Str(s) => Ok((Value::Str(s), q)),
            Tok::Enum(s) => Ok((Value::Enum(s), q)),
            Tok::Unset => Ok((Value::Unset, q)),
            Tok::LParen => match list(t, tail, q, depth + 1) {
                Err(e) => Err(e),
                Ok((vs, q1)) => Ok((Value::List(vs), q1)),
            },
            Tok::Ident(name) => match expect(t, tail, q, Tok::LParen) {
                Err(e) => Err(e),
                Ok(q1) => match list(t, tail, q1, depth + 1) {
                    Err(e) => Err(e),
                    Ok((vs, q2)) => Ok((Value::Typed(name, vs), q2)),
                },
            },
            other => Err(StepError::Unexpected(other, Place::Params)),
        },
    }
}

/// The values of a list whose `(` is read, up to and with its `)`.
fn list(t: &Vec<Tok>, tail: &Option<String>, p: usize, depth: usize) -> (r: Result<(Vec<Value>, usize), StepError>)
    requires
        p <= t@.len(),
        depth <= MAX_DEPTH + 1,
    ensures
        match (r, p_list(toks_view(t@), tail_view(*tail), p as int, depth as nat)) {
            (Ok((vs, q)), Ok((vv, qv))) => values_view(vs@) == vv && q == qv && p < q <= t@.len(),
            (Err(e), Err(ev)) => e@ == ev,
            _ => false,
        },
    decreases t@.len() - p, 2nat,
{
    if depth > MAX_DEPTH {
        return Err(StepError::Text(owned("lists nest too deeply")));
    }
    if at_rparen(t, p) {
        assert(values_view(Seq::<Value>::empty()) =~= Seq::<ValueV>::empty());
        let n = t.len();
        assert(p < n);
        return Ok((Vec::new(), p + 1));
    }
    items(t, tail, p, depth)
}

/// The values `v, v, ... )` from `p`.
fn items(t: &Vec<Tok>, tail: &Option<String>, p: usize, depth: usize) -> (r: Result<(Vec<Value>, usize), StepError>)
    requires
        p <= t@.len(),
        depth <= MAX_DEPTH,
    ensures
        match (r, p_items(toks_view(t@), tail_view(*tail), p as int, depth as nat, Seq::empty())) {
            (Ok((vs, q)), Ok((vv, qv))) => values_view(vs@) == vv && q == qv && p < q <= t@.len(),
            (Err(e), Err(ev)) => e@ == ev,
            _ => false,
        },
    decreases t@.len() - p, 1nat,
{
    let ghost tv = toks_view(t@);
    let ghost tl = tail_view(*tail);
    let mut out: Vec<Value> = Vec::new();
    let mut k = p;
    assert(values_view(out@) =~= Seq::<ValueV>::empty());
    loop
        invariant
            p <= k <= t@.len(),
            depth <= MAX_DEPTH,
            tv == toks_view(t@),
            tl == tail_view(*tail),
            p_items(tv, tl, p as int, depth as nat, Seq::empty()) == p_items(
                tv,
                tl,
                k as int,
                depth as nat,
                values_view(out@),
            ),
        decreases t@.len() - k,
    {
        match value(t, tail, k, depth) {
            Err(e) => return Err(e),
            Ok((v, q)) => {
                let ghost vv = value_view(v);
                proof {
                    lemma_values_view_push(out@, v);
                }
                match need(t, tail, q) {
                    Err(e) => return Err(e),
                    Ok((Tok::Comma, q1)) => {
                        out.push(v);
                        k = q1;
                    },
                    Ok((Tok::RParen, q1)) => {
                        out.push(v);
                        return Ok((out, q1));
                    },
                    Ok((x, _)) => return Err(StepError::Unexpected(x, Place::ListEnd)),
                }
            },
        }
    }
}

/// A `NAME(values)` record whose name is read.
fn record(t: &Vec<Tok>, tail: &Option<String>, p: usize, name: String) -> (r: Result<((String, Vec<Value>), usize), StepError>)
    requires
        p <= t@.len(),
    ensures
        match (r, p_record(toks_view(t@), tail_view(*tail), p as int, name@)) {
            (Ok(((n, vs), q)), Ok(((nv, vv), qv))) => n@ == nv && values_view(vs@) == vv && q == qv && p
                < q <= t@.len(),
            (Err(e), Err(ev)) => e@ == ev,
            _ => false,
        },
{
    match expect(t, tail, p, Tok::LParen) {
        Err(e) => Err(e),
        Ok(q) => match list(t, tail, q, 1) {
            Err(e) => Err(e),
            Ok((vs, q1)) => Ok(((name, vs), q1)),
        },
    }
}

/// The header records from `p` up to and with `ENDSEC`.
fn header(t: &Vec<Tok>, tail: &Option<String>, p: usize) -> (r: Result<usize, StepError>)
    requires
        p <= t@.len(),
    ensures
        match (r, p_header(toks_view(t@), tail_view(*tail), p as int)) {
            (Ok(q), Ok(qv)) => q == qv && p < q <= t@.len(),
            (Err(e), Err(ev)) => e@ == ev,
            _ => false,
        },
{
    let ghost tv = toks_view(t@);
    let ghost tl = tail_view(*tail);
    let mut k = p;
    loop
        invariant
            p <= k <= t@.len(),
            tv == toks_view(t@),
            tl == tail_view(*tail),
            p_header(tv, tl, p as int) == p_header(tv, tl, k as int),
        decreases t@.len() - k,
    {
        match need(t, tail, k) {
            Err(e) => return Err(e),
            Ok((Tok::Ident(n), q)) => {
                if crate::text::str_eq(n.as_str(), "ENDSEC") {
                    return Ok(q);
                }
                match record(t, tail, q, n) {
                    Err(e) => return Err(e),
                    Ok((_, q1)) => match expect(t, tail, q1, Tok::Semi) {
                        Err(e) => return Err(e),
                        Ok(q2) => {
                            k = q2;
                        },
                    },
                }
            },
            Ok((other, _)) => return Err(StepError::Unexpected(other, Place::Header)),
        }
    }
}

/// The parts of complex entity `id` from `p` up to and with its `)`.
fn complex(t: &Vec<Tok>, tail: &Option<String>, p: usize, id: u64) -> (r: Result<(Vec<(String, Vec<Value>)>, usize), StepError>)
    requires
        p <= t@.len(),
    ensures
        match (r, p_complex(toks_view(t@), tail_view(*tail), p as int, id, Seq::empty())) {
            (Ok((ps, q)), Ok((pv, qv))) => parts_view(ps@) == pv && q == qv && p < q <= t@.len(),
            (Err(e), Err(ev)) => e@ == ev,
            _ => false,
        },
{
    let ghost tv = toks_view(t@);
    let ghost tl = tail_view(*tail);
    let mut out: Vec<(String, Vec<Value>)> = Vec::new();
    let mut k = p;
    assert(parts_view(out@) =~= Seq::<PartV>::empty());
    loop
        invariant
            p <= k <= t@.len(),
            tv == toks_view(t@),
            tl == tail_view(*tail),
            p_complex(tv, tl, p as int, id, Seq::empty()) == p_complex(tv, tl, k as int, id, parts_view(out@)),
        decreases t@.len() - k,
    {
        match need(t, tail, k) {
            Err(e) => return Err(e),
            Ok((Tok::RParen, q)) => return Ok((out, q)),
            Ok((Tok::Ident(n), q)) => match record(t, tail, q, n) {
                Err(e) => return Err(e),
                Ok((part, q1)) => {
                    let ghost before = out@;
                    let ghost pv = (part.0@, values_view(part.1@));
                    out.push(part);
                    assert(parts_view(out@) =~= parts_view(before).push(pv));
                    k = q1;
                },
            },
            Ok((other, _)) => return Err(StepError::Unexpected(other, Place::Complex(id))),
        }
    }
}

/// The parts of entity `id` after its `#id=`.
fn parts(t: &Vec<Tok>, tail: &Option<String>, p: usize, id: u64) -> (r: Result<(Vec<(String, Vec<Value>)>, usize), StepError>)
    requires
        p <= t@.len(),
    ensures
        match (r, p_parts(toks_view(t@), tail_view(*tail), p as int, id)) {
            (Ok((ps, q)), Ok((pv, qv))) => parts_view(ps@) == pv && q == qv && p < q <= t@.len(),
            (Err(e), Err(ev)) => e@ == ev,
            _ => false,
        },
{
    match need(t, tail, p) {
        Err(e) => Err(e),
        Ok((Tok::Ident(n), q)) => match record(t, tail, q, n) {
            Err(e) => Err(e),
            Ok((part, q1)) => {
                let ghost pv = (part.0@, values_view(part.1@));
                let mut out: Vec<(String, Vec<Value>)> = Vec::new();
                out.push(part);
                assert(parts_view(out@) =~= seq![pv]);
                Ok((out, q1))
            },
        },
        Ok((Tok::LParen, q)) => match complex(t, tail, q, id) {
            Err(e) => Err(e),
            Ok((ps, q1)) => if ps.len() == 0 {
                let mut m = owned("complex entity #");
                push_decimal(&mut m, id);
                m.append(" is empty");
                Err(StepError::Text(m))
            } else {
                Ok((ps, q1))
            },
        },
        Ok((other, _)) => Err(StepError::Unexpected(other, Place::AfterEq(id))),
    }
}

/// The table as the spec sees it: each entity by its parts.
pub open spec fn table_view(m: Map<u64, Entity>) -> Map<u64, Seq<PartV>> {
    m.map_values(|e: Entity| parts_view(e.parts@))
}

/// The entities from `p` up to and with `ENDSEC`, added to `ents`.
fn entities(t: &Vec<Tok>, tail: &Option<String>, p: usize, ents: &mut HashMap<u64, Entity>) -> (r: Result<usize, StepError>)
    requires
        p <= t@.len(),
    ensures
        match (r, p_entities(toks_view(t@), tail_view(*tail), p as int, table_view(old(ents)@))) {
            (Ok(q), Ok((m, qv))) => table_view(final(ents)@) == m && q == qv && p < q <= t@.len(),
            (Err(e), Err(ev)) => e@ == ev,
            _ => false,
        },
{
    broadcast use vstd::std_specs::hash::group_hash_axioms;
    let ghost tv = toks_view(t@);
    let ghost tl = tail_view(*tail);
    let mut k = p;
    loop
        invariant
            p <= k <= t@.len(),
            tv == toks_view(t@),
            tl == tail_view(*tail),
            p_entities(tv, tl, p as int, table_view(old(ents)@)) == p_entities(tv, tl, k as int, table_view(ents@)),
        decreases t@.len() - k,
    {
        match need(t, tail, k) {
            Err(e) => return Err(e),
            Ok((Tok::Hash(id), q)) => match expect(t, tail, q, Tok::Eq) {
                Err(e) => return Err(e),
                Ok(q1) => match parts(t, tail, q1, id) {
                    Err(e) => return Err(e),
                    Ok((ps, q2)) => match expect(t, tail, q2, Tok::Semi) {
                        Err(e) => return Err(e),
                        Ok(q3) => {
                            let ghost before = ents@;
                            let ghost pv = parts_view(ps@);
                            ents.insert(id, Entity { parts: ps });
                            assert(table_view(ents@) =~= table_view(before).insert(id, pv));
                            k = q3;
                        },
                    },
                },
            },
            Ok((Tok::Ident(n), q)) => {
                if crate::text::str_eq(n.as_str(), "ENDSEC") {
                    return Ok(q);
                }
                return Err(StepError::Unexpected(Tok::Ident(n), Place::EntityStart));
            },
            Ok((other, _)) => return Err(StepError::Unexpected(other, Place::EntityStart)),
        }
    }
}

/// The optional name and schema list after `DATA`.
fn data_head(t: &Vec<Tok>, tail: &Option<String>, q: usize) -> (r: Result<usize, StepError>)
    requires
        q <= t@.len(),
    ensures
        match (r, p_data_head(toks_view(t@), tail_view(*tail), q as int)) {
            (Ok(q1), Ok(qv)) => q1 == qv && q <= q1 <= t@.len(),
            (Err(e), Err(ev)) => e@ == ev,
            _ => false,
        },
{
    if q < t.len() {
        match &t[q] {
            Tok::LParen => match list(t, tail, q + 1, 1) {
                Err(e) => Err(e),
                Ok((_, q2)) => Ok(q2),
            },
            _ => Ok(q),
        }
    } else {
        match tail {
            Some(m) => Err(StepError::Text(m.clone())),
            None => Ok(q),
        }
    }
}

/// The sections from `p` up to and with `END-ISO-10303-21`.
fn sections(t: &Vec<Tok>, tail: &Option<String>, p: usize) -> (r: Result<HashMap<u64, Entity>, StepError>)
    requires
        p <= t@.len(),
    ensures
        match (r, p_sections(toks_view(t@), tail_view(*tail), p as int, Map::empty(), false)) {
            (Ok(m), Ok(mv)) => table_view(m@) == mv,
            (Err(e), Err(ev)) => e@ == ev,
            _ => false,
        },
{
    broadcast use vstd::std_specs::hash::group_hash_axioms;
    let ghost tv = toks_view(t@);
    let ghost tl = tail_view(*tail);
    let mut ents: HashMap<u64, Entity> = HashMap::new();
    let mut saw_data = false;
    let mut k = p;
    assert(table_view(ents@) =~= Map::<u64, Seq<PartV>>::empty());
    loop
        invariant
            p <= k <= t@.len(),
            tv == toks_view(t@),
            tl == tail_view(*tail),
            p_sections(tv, tl, p as int, Map::empty(), false) == p_sections(
                tv,
                tl,
                k as int,
                table_view(ents@),
                saw_data,
            ),
        decreases t@.len() - k,
    {
        match need(t, tail, k) {
            Err(e) => return Err(e),
            Ok((Tok::Ident(n), q)) => {
                if crate::text::str_eq(n.as_str(), "END-ISO-10303-21") {
                    if saw_data {
                        return Ok(ents);
                    }
                    return Err(StepError::Text(owned("the STEP file has no DATA section")));
                } else if crate::text::str_eq(n.as_str(), "HEADER") {
                    match expect(t, tail, q, Tok::Semi) {
                        Err(e) => return Err(e),
                        Ok(q1) => match header(t, tail, q1) {
                            Err(e) => return Err(e),
                            Ok(q2) => match expect(t, tail, q2, Tok::Semi) {
                                Err(e) => return Err(e),
                                Ok(q3) => {
                                    k = q3;
                                },
                            },
                        },
                    }
                } else if crate::text::str_eq(n.as_str(), "DATA") {
                    match data_head(t, tail, q) {
                        Err(e) => return Err(e),
                        Ok(q1) => match expect(t, tail, q1, Tok::Semi) {
                            Err(e) => return Err(e),
                            Ok(q2) => match entities(t, tail, q2, &mut ents) {
                                Err(e) => return Err(e),
                                Ok(q3) => match expect(t, tail, q3, Tok::Semi) {
                                    Err(e) => return Err(e),
                                    Ok(q4) => {
                                        saw_data = true;
                                        k = q4;
                                    },
                                },
                            },
                        },
                    }
                } else {
                    return Err(StepError::Unexpected(Tok::Ident(n), Place::BetweenSections));
                }
            },
            Ok((other, _)) => return Err(StepError::Unexpected(other, Place::BetweenSections)),
        }
    }
}

/// Reads STEP text into its entity table, `#id -> entity`. A later entity
/// with the same number replaces the earlier one.
pub fn parse(text: &str) -> (r: Result<HashMap<u64, Entity>, StepError>)
    ensures
        match (r, step_table(text.spec_bytes())) {
            (Ok(m), Ok(mv)) => table_view(m@) == mv,
            (Err(e), Err(ev)) => e@ == ev,
            _ => false,
        },
{
    let (t, tail) = lex_all(text);
    let ghost tv = toks_view(t@);
    let ghost tl = tail_view(tail);
    let not_step = "not a STEP file: it does not start with ISO-10303-21";
    if t.len() == 0 {
        return Err(tail_error(&tail, not_step));
    }
    match &t[0] {
        Tok::Ident(n) => {
            if !crate::text::str_eq(n.as_str(), "ISO-10303-21") {
                return Err(StepError::Text(owned(not_step)));
            }
        },
        _ => return Err(StepError::Text(owned(not_step))),
    }
    match expect(&t, &tail, 1, Tok::Semi) {
        Err(e) => Err(e),
        Ok(q1) => sections(&t, &tail, q1),
    }
}

// ---------------------------------------------------------------- messages

/// A string as `{:?}` writes it: in double quotes, with `Debug`'s escapes.
pub uninterp spec fn debug_text(s: Seq<char>) -> Seq<char>;

/// Writes `s` with `format!("{:?}")`, which `<str as Debug>::fmt` does;
/// its result is named `debug_text`.
#[verifier::external_body]
fn debug_quoted(s: &str) -> (r: String)
    ensures
        r@ == debug_text(s@),
{
    format!("{s:?}")
}

/// A token as an error message shows it: the variant's name and its value,
/// a name or string quoted as `Debug` quotes it. A real shows as written in
/// the file.
pub open spec fn tok_text(t: TokV) -> Seq<char> {
    match t {
        TokV::Hash(n) => "Hash("@ + decimal(n as nat) + ")"@,
        TokV::Ident(s) => "Ident("@ + debug_text(s) + ")"@,
        TokV::Num(s) => "Num("@ + s + ")"@,
        TokV::Str(s) => "Str("@ + debug_text(s) + ")"@,
        TokV::Enum(s) => "Enum("@ + debug_text(s) + ")"@,
        TokV::Unset => "Unset"@,
        TokV::LParen => "LParen"@,
        TokV::RParen => "RParen"@,
        TokV::Comma => "Comma"@,
        TokV::Eq => "Eq"@,
        TokV::Semi => "Semi"@,
    }
}

/// The message of an error.
pub open spec fn error_text(e: ErrV) -> Seq<char> {
    match e {
        ErrV::Text(m) => m,
        ErrV::Expected(want, got) => "expected "@ + tok_text(want) + ", found "@ + tok_text(got),
        ErrV::Unexpected(t, place) => match place {
            Place::Params => "unexpected "@ + tok_text(t) + " in a parameter list"@,
            Place::ListEnd => "expected ',' or ')', found "@ + tok_text(t),
            Place::Header => "unexpected "@ + tok_text(t) + " in the header"@,
            Place::EntityStart => "expected an entity, found "@ + tok_text(t),
            Place::Complex(id) => "unexpected "@ + tok_text(t) + " in complex entity #"@ + decimal(id as nat),
            Place::AfterEq(id) => "unexpected "@ + tok_text(t) + " after #"@ + decimal(id as nat) + "="@,
            Place::BetweenSections => "unexpected "@ + tok_text(t) + " between sections"@,
        },
    }
}

/// Appends the text of a token.
fn push_tok(m: &mut String, t: &Tok)
    ensures
        final(m)@ == old(m)@ + tok_text(t@),
{
    match t {
        Tok::Hash(n) => {
            m.append("Hash(");
            push_decimal(m, *n);
            m.append(")");
        },
        Tok::Ident(s) => {
            m.append("Ident(");
            let q = debug_quoted(s.as_str());
            m.append(q.as_str());
            m.append(")");
        },
        Tok::Num(s) => {
            m.append("Num(");
            m.append(s.as_str());
            m.append(")");
        },
        Tok::Str(s) => {
            m.append("Str(");
            let q = debug_quoted(s.as_str());
            m.append(q.as_str());
            m.append(")");
        },
        Tok::Enum(s) => {
            m.append("Enum(");
            let q = debug_quoted(s.as_str());
            m.append(q.as_str());
            m.append(")");
        },
        Tok::Unset => m.append("Unset"),
        Tok::LParen => m.append("LParen"),
        Tok::RParen => m.append("RParen"),
        Tok::Comma => m.append("Comma"),
        Tok::Eq => m.append("Eq"),
        Tok::Semi => m.append("Semi"),
    }
    assert(final(m)@ =~= old(m)@ + tok_text(t@));
}

impl StepError {
    /// The error as a message, such as "expected Semi, found Comma".
    pub fn message(&self) -> (r: String)
        ensures
            r@ == error_text(self@),
    {
        match self {
            StepError::Text(m) => m.clone(),
            StepError::Expected(want, got) => {
                let mut r = owned("expected ");
                push_tok(&mut r, want);
                r.append(", found ");
                push_tok(&mut r, got);
                r
            },
            StepError::Unexpected(t, place) => match place {
                Place::ListEnd => {
                    let mut r = owned("expected ',' or ')', found ");
                    push_tok(&mut r, t);
                    r
                },
                Place::EntityStart => {
                    let mut r = owned("expected an entity, found ");
                    push_tok(&mut r, t);
                    r
                },
                Place::Params => {
                    let mut r = owned("unexpected ");
                    push_tok(&mut r, t);
                    r.append(" in a parameter list");
                    r
                },
                Place::Header => {
                    let mut r = owned("unexpected ");
                    push_tok(&mut r, t);
                    r.append(" in the header");
                    r
                },
                Place::Complex(id) => {
                    let mut r = owned("unexpected ");
                    push_tok(&mut r, t);
                    r.append(" in complex entity #");
                    push_decimal(&mut r, *id);
                    r
                },
                Place::AfterEq(id) => {
                    let mut r = owned("unexpected ");
                    push_tok(&mut r, t);
                    r.append(" after #");
                    push_decimal(&mut r, *id);
                    r.append("=");
                    r
                },
                Place::BetweenSections => {
                    let mut r = owned("unexpected ");
                    push_tok(&mut r, t);
                    r.append(" between sections");
                    r
                },
            },
        }
    }
}

} // verus!
