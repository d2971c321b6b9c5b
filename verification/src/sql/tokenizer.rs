//! The SQL tokenizer for the supported subset.
//!
//! Input must be ASCII. Keywords and identifiers are case-insensitive and
//! are lower-cased; string literals admit letters, digits, underscores and
//! spaces, with their content kept verbatim; numbers are digit runs with at
//! most one decimal point and at most 18 fractional digits.

use vstd::prelude::*;
use vstd::string::StrSliceExecFns;

use super::ast::{Expr, RealLit};
use crate::cursor::value::{Value, ValueView, value_eq, value_lt, values_equal, values_less};
use crate::error::{DbError, ErrorKind};

verus! {

/// One SQL token.
#[derive(Debug, PartialEq, Clone)]
pub enum Token {
    Create,
    Table,
    LPar,
    RPar,
    Select,
    As,
    From,
    Star,
    Comma,
    SemiColon,
    Where,
    Op(Ops),
    Identifier(String),
    Int(i64),
    Real(RealLit),
    String(String),
    Null,
}

/// A comparison or logical operator.
#[derive(Debug, Clone, Copy, PartialEq, Eq, Structural)]
pub enum Ops {
    Eq,
    Ne,
    Lt,
    Gt,
    Loe,
    Goe,
    And,
    Or,
}

/// The mathematical content of a [`Token`].
pub enum TokenView {
    Create,
    Table,
    LPar,
    RPar,
    Select,
    As,
    From,
    Star,
    Comma,
    SemiColon,
    Where,
    Op(Ops),
    Identifier(Seq<char>),
    Int(i64),
    Real(RealLit),
    String(Seq<char>),
    Null,
}

impl View for Token {
    type V = TokenView;

    open spec fn view(&self) -> TokenView {
        match self {
            Token::Create => TokenView::Create,
            Token::Table => TokenView::Table,
            Token::LPar => TokenView::LPar,
            Token::RPar => TokenView::RPar,
            Token::Select => TokenView::Select,
            Token::As => TokenView::As,
            Token::From => TokenView::From,
            Token::Star => TokenView::Star,
            Token::Comma => TokenView::Comma,
            Token::SemiColon => TokenView::SemiColon,
            Token::Where => TokenView::Where,
            Token::Op(o) => TokenView::Op(*o),
            Token::Identifier(s) => TokenView::Identifier(s@),
            Token::Int(i) => TokenView::Int(*i),
            Token::Real(r) => TokenView::Real(*r),
            Token::String(s) => TokenView::String(s@),
            Token::Null => TokenView::Null,
        }
    }
}

/// ASCII whitespace.
pub open spec fn is_ws(c: char) -> bool {
    c == ' ' || c == '\t' || c == '\n' || c == '\r'
}

/// An ASCII decimal digit.
pub open spec fn is_digit(c: char) -> bool {
    48 <= c as u32 <= 57
}

/// An ASCII letter.
pub open spec fn is_alpha(c: char) -> bool {
    (65 <= c as u32 <= 90) || (97 <= c as u32 <= 122)
}

/// A letter, digit or underscore.
pub open spec fn is_ident_char(c: char) -> bool {
    is_alpha(c) || is_digit(c) || c as u32 == 95
}

/// A character admitted inside a string literal.
pub open spec fn is_str_char(c: char) -> bool {
    is_ident_char(c) || c == ' '
}

/// The lower-case form of an ASCII character.
pub open spec fn lower(c: char) -> char {
    if 65 <= c as u32 <= 90 {
        ((c as u32) + 32) as char
    } else {
        c
    }
}

/// End of the maximal run of digits and dots starting at `j`.
pub open spec fn num_end(s: Seq<char>, j: int) -> int
    decreases s.len() - j,
{
    if 0 <= j < s.len() && (is_digit(s[j]) || s[j] == '.') {
        num_end(s, j + 1)
    } else {
        j
    }
}

/// End of the maximal run of identifier characters starting at `j`.
pub open spec fn ident_end(s: Seq<char>, j: int) -> int
    decreases s.len() - j,
{
    if 0 <= j < s.len() && is_ident_char(s[j]) {
        ident_end(s, j + 1)
    } else {
        j
    }
}

/// End of the maximal run of string-literal characters starting at `j`.
pub open spec fn str_end(s: Seq<char>, j: int) -> int
    decreases s.len() - j,
{
    if 0 <= j < s.len() && is_str_char(s[j]) {
        str_end(s, j + 1)
    } else {
        j
    }
}

/// The number of dots among `s[i..j]`.
pub open spec fn dot_count(s: Seq<char>, i: int, j: int) -> int
    decreases j - i,
{
    if i >= j {
        0
    } else {
        dot_count(s, i, j - 1) + if s[j - 1] == '.' {
            1int
        } else {
            0int
        }
    }
}

/// The value of the digits among `s[i..j]`, dots skipped.
pub open spec fn digits_val(s: Seq<char>, i: int, j: int) -> int
    decreases j - i,
{
    if i >= j {
        0
    } else if s[j - 1] == '.' {
        digits_val(s, i, j - 1)
    } else {
        digits_val(s, i, j - 1) * 10 + (s[j - 1] as u32 - 48)
    }
}

/// The number of digits strictly after the last dot in `s[i..j]`, or 0 when
/// there is no dot.
pub open spec fn scale_of(s: Seq<char>, i: int, j: int) -> int
    decreases j - i,
{
    if i >= j {
        0
    } else if s[j - 1] == '.' {
        0
    } else {
        scale_of(s, i, j - 1) + 1
    }
}

/// Whether `s[i..j]` holds a dot at all.
pub open spec fn has_dot(s: Seq<char>, i: int, j: int) -> bool {
    dot_count(s, i, j) > 0
}

/// The lower-cased copy of `s[i..j]`.
pub open spec fn lower_span(s: Seq<char>, i: int, j: int) -> Seq<char> {
    s.subrange(i, j).map(|k: int, c: char| lower(c))
}

/// The token that an identifier word denotes: a keyword, an operator word,
/// or a plain identifier.
pub open spec fn word_token(w: Seq<char>) -> TokenView {
    if w == "create"@ {
        TokenView::Create
    } else if w == "table"@ {
        TokenView::Table
    } else if w == "select"@ {
        TokenView::Select
    } else if w == "where"@ {
        TokenView::Where
    } else if w == "as"@ {
        TokenView::As
    } else if w == "from"@ {
        TokenView::From
    } else if w == "and"@ {
        TokenView::Op(Ops::And)
    } else if w == "or"@ {
        TokenView::Op(Ops::Or)
    } else if w == "null"@ {
        TokenView::Null
    } else {
        TokenView::Identifier(w)
    }
}

/// What tokenizing `s` from position `i` onward yields.
pub open spec fn tokens_from(s: Seq<char>, i: int) -> Result<Seq<TokenView>, ()>
    decreases s.len() - i,
    when 0 <= i
    via tokens_from_decreases
{
    if i >= s.len() {
        Ok(Seq::empty())
    } else {
        let c = s[i];
        if is_ws(c) {
            tokens_from(s, i + 1)
        } else if c == '*' {
            cons_token(TokenView::Star, tokens_from(s, i + 1))
        } else if c == ',' {
            cons_token(TokenView::Comma, tokens_from(s, i + 1))
        } else if c == ';' {
            cons_token(TokenView::SemiColon, tokens_from(s, i + 1))
        } else if c == '(' {
            cons_token(TokenView::LPar, tokens_from(s, i + 1))
        } else if c == ')' {
            cons_token(TokenView::RPar, tokens_from(s, i + 1))
        } else if c == '=' || c == '<' || c == '>' || c == '!' {
            let two = i + 1 < s.len() && s[i + 1] == '=';
            if two {
                if c == '!' {
                    cons_token(TokenView::Op(Ops::Ne), tokens_from(s, i + 2))
                } else if c == '<' {
                    cons_token(TokenView::Op(Ops::Loe), tokens_from(s, i + 2))
                } else if c == '>' {
                    cons_token(TokenView::Op(Ops::Goe), tokens_from(s, i + 2))
                } else {
                    Err(())
                }
            } else {
                if c == '=' {
                    cons_token(TokenView::Op(Ops::Eq), tokens_from(s, i + 1))
                } else if c == '<' {
                    cons_token(TokenView::Op(Ops::Lt), tokens_from(s, i + 1))
                } else if c == '>' {
                    cons_token(TokenView::Op(Ops::Gt), tokens_from(s, i + 1))
                } else {
                    Err(())
                }
            }
        } else if is_digit(c) {
            let j = num_end(s, i);
            if has_dot(s, i, j) {
                if dot_count(s, i, j) > 1 || digits_val(s, i, j) > u64::MAX || scale_of(s, i, j)
                    > 18 {
                    Err(())
                } else {
                    cons_token(
                        TokenView::Real(
                            RealLit {
                                mantissa: digits_val(s, i, j) as u64,
                                scale: scale_of(s, i, j) as u8,
                            },
                        ),
                        tokens_from(s, j),
                    )
                }
            } else {
                if digits_val(s, i, j) > i64::MAX {
                    Err(())
                } else {
                    cons_token(TokenView::Int(digits_val(s, i, j) as i64), tokens_from(s, j))
                }
            }
        } else if c == '\'' || c == '"' {
            let j = str_end(s, i + 1);
            if j < s.len() && (s[j] == '\'' || s[j] == '"') {
                cons_token(TokenView::String(s.subrange(i + 1, j)), tokens_from(s, j + 1))
            } else {
                Err(())
            }
        } else if is_alpha(c) {
            let j = ident_end(s, i);
            cons_token(word_token(lower_span(s, i, j)), tokens_from(s, j))
        } else {
            Err(())
        }
    }
}

/// Prefix one token onto a tokenizing result.
pub open spec fn cons_token(t: TokenView, rest: Result<Seq<TokenView>, ()>) -> Result<
    Seq<TokenView>,
    (),
> {
    match rest {
        Ok(ts) => Ok(seq![t] + ts),
        Err(e) => Err(e),
    }
}

/// Scanning for a span's end never moves backward past its start.
proof fn lemma_span_ends(s: Seq<char>, j: int)
    ensures
        num_end(s, j) >= j,
        ident_end(s, j) >= j,
        str_end(s, j) >= j,
        j < s.len() ==> num_end(s, j) <= s.len(),
        j < s.len() ==> ident_end(s, j) <= s.len(),
        j < s.len() ==> str_end(s, j) <= s.len(),
        j >= s.len() ==> num_end(s, j) == j && ident_end(s, j) == j && str_end(s, j) == j,
    decreases s.len() - j,
{
    if 0 <= j < s.len() {
        lemma_span_ends(s, j + 1);
    }
}

#[via_fn]
proof fn tokens_from_decreases(s: Seq<char>, i: int) {
    lemma_span_ends(s, i);
    lemma_span_ends(s, i + 1);
}

/// What tokenizing an input yields: the token list, or nothing when some
/// character cannot start a token, a two-character operator is malformed, a
/// number is out of range, or a string is unterminated. Only ASCII input
/// tokenizes.
pub open spec fn spec_tokenize(s: Seq<char>) -> Result<Seq<TokenView>, ()> {
    if !vstd::utf8::is_ascii_chars(s) {
        Err(())
    } else {
        tokens_from(s, 0)
    }
}

/// Build a `String` from ASCII bytes, one character per byte.
///
/// Relies on `String::from_utf8`: bytes below 128 are valid UTF-8 and decode
/// to exactly one character per byte, each with that byte's code.
#[verifier::external_body]
fn ascii_to_string(bytes: &[u8]) -> (r: String)
    requires
        forall|k: int| 0 <= k < bytes@.len() ==> bytes@[k] < 128,
    ensures
        r@.len() == bytes@.len(),
        forall|k: int| 0 <= k < bytes@.len() ==> r@[k] == (#[trigger] bytes@[k]) as char,
{
    String::from_utf8(bytes.to_vec()).unwrap()
}


/// Is the character at `j` a digit or a dot?
fn is_num_char_at(s: &str, j: usize) -> (r: bool)
    requires
        s.is_ascii(),
        j < s@.len(),
    ensures
        r == (is_digit(s@[j as int]) || s@[j as int] == '.'),
{
    proof {
        assert(s@[j as int] <= (127u8 as char));
    }
    let b = s.get_ascii(j);
    (48 <= b && b <= 57) || b == 46
}

/// Is the character at `j` a letter, digit or underscore?
fn is_ident_char_at(s: &str, j: usize) -> (r: bool)
    requires
        s.is_ascii(),
        j < s@.len(),
    ensures
        r == is_ident_char(s@[j as int]),
{
    proof {
        assert(s@[j as int] <= (127u8 as char));
    }
    let b = s.get_ascii(j);
    (48 <= b && b <= 57) || (65 <= b && b <= 90) || (97 <= b && b <= 122) || b == 95
}

/// Is the character at `j` admitted inside a string literal?
fn is_str_char_at(s: &str, j: usize) -> (r: bool)
    requires
        s.is_ascii(),
        j < s@.len(),
    ensures
        r == is_str_char(s@[j as int]),
{
    proof {
        assert(s@[j as int] <= (127u8 as char));
    }
    let b = s.get_ascii(j);
    (48 <= b && b <= 57) || (65 <= b && b <= 90) || (97 <= b && b <= 122) || b == 95 || b == 32
}

/// End of the digit-and-dot run starting at `i`.
fn scan_num_end(s: &str, i: usize) -> (j: usize)
    requires
        s.is_ascii(),
        i <= s@.len(),
    ensures
        j == num_end(s@, i as int),
        i <= j <= s@.len(),
{
    let len = s.unicode_len();
    let mut j = i;
    proof {
        lemma_span_ends(s@, i as int);
    }
    while j < len && is_num_char_at(s, j)
        invariant
            s.is_ascii(),
            i <= j <= len,
            len == s@.len(),
            num_end(s@, i as int) == num_end(s@, j as int),
        decreases len - j,
    {
        proof {
            assert(s@[j as int] <= (127u8 as char));
        }
        j = j + 1;
    }
    proof {
        if j < len {
            assert(s@[j as int] <= (127u8 as char));
        }
    }
    j
}

/// End of the identifier-character run starting at `i`.
fn scan_ident_end(s: &str, i: usize) -> (j: usize)
    requires
        s.is_ascii(),
        i <= s@.len(),
    ensures
        j == ident_end(s@, i as int),
        i <= j <= s@.len(),
{
    let len = s.unicode_len();
    let mut j = i;
    proof {
        lemma_span_ends(s@, i as int);
    }
    while j < len && is_ident_char_at(s, j)
        invariant
            s.is_ascii(),
            i <= j <= len,
            len == s@.len(),
            ident_end(s@, i as int) == ident_end(s@, j as int),
        decreases len - j,
    {
        proof {
            assert(s@[j as int] <= (127u8 as char));
        }
        j = j + 1;
    }
    proof {
        if j < len {
            assert(s@[j as int] <= (127u8 as char));
        }
    }
    j
}

/// End of the string-literal-character run starting at `i`.
fn scan_str_end(s: &str, i: usize) -> (j: usize)
    requires
        s.is_ascii(),
        i <= s@.len(),
    ensures
        j == str_end(s@, i as int),
        i <= j <= s@.len(),
{
    let len = s.unicode_len();
    let mut j = i;
    proof {
        lemma_span_ends(s@, i as int);
    }
    while j < len && is_str_char_at(s, j)
        invariant
            s.is_ascii(),
            i <= j <= len,
            len == s@.len(),
            str_end(s@, i as int) == str_end(s@, j as int),
        decreases len - j,
    {
        proof {
            assert(s@[j as int] <= (127u8 as char));
        }
        j = j + 1;
    }
    proof {
        if j < len {
            assert(s@[j as int] <= (127u8 as char));
        }
    }
    j
}

/// The verbatim copy of `s[i..j]`.
fn span_string(s: &str, i: usize, j: usize) -> (r: String)
    requires
        s.is_ascii(),
        i <= j <= s@.len(),
    ensures
        r@ == s@.subrange(i as int, j as int),
{
    let mut bytes: Vec<u8> = Vec::new();
    let mut k = i;
    while k < j
        invariant
            s.is_ascii(),
            i <= k <= j <= s@.len(),
            bytes@.len() == k - i,
            forall|m: int|
                0 <= m < bytes@.len() ==> #[trigger] bytes@[m] < 128 && bytes@[m] as char == s@[i
                    + m],
        decreases j - k,
    {
        proof {
            assert(s@[k as int] <= (127u8 as char));
        }
        let b = s.get_ascii(k);
        bytes.push(b);
        k = k + 1;
    }
    let r = ascii_to_string(bytes.as_slice());
    proof {
        assert forall|m: int| 0 <= m < r@.len() implies r@[m] == s@.subrange(
            i as int,
            j as int,
        )[m] by {
            assert(r@[m] == (bytes@[m]) as char);
            assert(bytes@[m] < 128 && bytes@[m] as char == s@[i + m]);
        }
        assert(r@ =~= s@.subrange(i as int, j as int));
    }
    r
}

/// The lower-cased copy of `s[i..j]`.
fn lower_span_string(s: &str, i: usize, j: usize) -> (r: String)
    requires
        s.is_ascii(),
        i <= j <= s@.len(),
    ensures
        r@ == lower_span(s@, i as int, j as int),
{
    let mut bytes: Vec<u8> = Vec::new();
    let mut k = i;
    while k < j
        invariant
            s.is_ascii(),
            i <= k <= j <= s@.len(),
            bytes@.len() == k - i,
            forall|m: int|
                0 <= m < bytes@.len() ==> #[trigger] bytes@[m] < 128 && bytes@[m] as char == lower(
                    s@[i + m],
                ),
        decreases j - k,
    {
        proof {
            assert(s@[k as int] <= (127u8 as char));
        }
        let b = s.get_ascii(k);
        let lb: u8 = if 65 <= b && b <= 90 {
            b + 32
        } else {
            b
        };
        bytes.push(lb);
        k = k + 1;
    }
    let r = ascii_to_string(bytes.as_slice());
    proof {
        assert forall|m: int| 0 <= m < r@.len() implies r@[m] == lower_span(
            s@,
            i as int,
            j as int,
        )[m] by {
            assert(r@[m] == (bytes@[m]) as char);
            assert(bytes@[m] < 128 && bytes@[m] as char == lower(s@[i + m]));
        }
        assert(r@ =~= lower_span(s@, i as int, j as int));
    }
    r
}

/// Lex the number starting at `i` and running to `j`.
fn scan_number(s: &str, i: usize, j: usize) -> (r: Result<Token, DbError>)
    requires
        s.is_ascii(),
        i < j <= s@.len(),
        forall|m: int| i <= m < j ==> is_digit(s@[m]) || s@[m] == '.',
    ensures
        match r {
            Ok(t) => {
                let sv = s@;
                &&& (if has_dot(sv, i as int, j as int) {
                    &&& dot_count(sv, i as int, j as int) <= 1
                    &&& digits_val(sv, i as int, j as int) <= u64::MAX
                    &&& scale_of(sv, i as int, j as int) <= 18
                    &&& t@ == TokenView::Real(
                        RealLit {
                            mantissa: digits_val(sv, i as int, j as int) as u64,
                            scale: scale_of(sv, i as int, j as int) as u8,
                        },
                    )
                } else {
                    &&& digits_val(sv, i as int, j as int) <= i64::MAX
                    &&& t@ == TokenView::Int(digits_val(sv, i as int, j as int) as i64)
                })
            },
            Err(e) => {
                let sv = s@;
                &&& (if has_dot(sv, i as int, j as int) {
                    dot_count(sv, i as int, j as int) > 1 || digits_val(sv, i as int, j as int)
                        > u64::MAX || scale_of(sv, i as int, j as int) > 18
                } else {
                    digits_val(sv, i as int, j as int) > i64::MAX
                })
                &&& e.kind == ErrorKind::Parse
            },
        },
{
    let ghost sv = s@;
    let mut acc: u64 = 0;
    let mut dots: usize = 0;
    let mut scale: usize = 0;
    let mut k = i;
    while k < j
        invariant
            s.is_ascii(),
            sv == s@,
            i <= k <= j <= sv.len(),
            forall|m: int| i <= m < j ==> is_digit(sv[m]) || sv[m] == '.',
            acc == digits_val(sv, i as int, k as int),
            dots == dot_count(sv, i as int, k as int),
            scale == scale_of(sv, i as int, k as int),
            dots <= k - i,
            scale <= k - i,
        decreases j - k,
    {
        proof {
            assert(sv[k as int] <= (127u8 as char));
        }
        let b = s.get_ascii(k);
        if b == 46 {
            dots = dots + 1;
            scale = 0;
        } else {
            if acc > (u64::MAX - (b - 48) as u64) / 10 {
                proof {
                    let d = (sv[k as int] as u32 - 48) as int;
                    lemma_next_digit_overflows(acc as int, d, u64::MAX as int);
                    lemma_digits_val_mono(sv, i as int, k as int + 1, j as int);
                }
                return Err(DbError::new(ErrorKind::Parse, "numeric literal out of range"));
            }
            acc = acc * 10 + (b - 48) as u64;
            scale = scale + 1;
        }
        k = k + 1;
    }
    if dots > 1 {
        return Err(DbError::new(ErrorKind::Parse, "malformed numeric literal"));
    }
    if dots == 1 {
        if scale > 18 {
            return Err(DbError::new(ErrorKind::Parse, "numeric literal out of range"));
        }
        proof {
            lemma_dot_count_has_dot(sv, i as int, j as int);
        }
        Ok(Token::Real(RealLit { mantissa: acc, scale: scale as u8 }))
    } else {
        proof {
            lemma_dot_count_has_dot(sv, i as int, j as int);
        }
        if acc > 0x7FFF_FFFF_FFFF_FFFF {
            return Err(DbError::new(ErrorKind::Parse, "numeric literal out of range"));
        }
        Ok(Token::Int(acc as i64))
    }
}

/// When the accumulator would overflow on the next digit, the digit value
/// pushes past the bound.
proof fn lemma_next_digit_overflows(acc: int, d: int, cap: int)
    requires
        0 <= d <= 9,
        0 <= acc,
        cap >= 9,
        acc > (cap - d) / 10,
    ensures
        acc * 10 + d > cap,
{
    let q = (cap - d) / 10;
    vstd::arithmetic::div_mod::lemma_fundamental_div_mod(cap - d, 10);
    vstd::arithmetic::div_mod::lemma_mod_division_less_than_divisor(cap - d, 10);
    vstd::arithmetic::mul::lemma_mul_inequality(q + 1, acc, 10);
    assert((q + 1) * 10 == q * 10 + 10) by (nonlinear_arith);
}

/// Reading more digits never shrinks the accumulated value.
proof fn lemma_digits_val_mono(s: Seq<char>, i: int, k: int, j: int)
    requires
        i <= k <= j,
        forall|m: int| i <= m < j ==> is_digit(s[m]) || s[m] == '.',
    ensures
        digits_val(s, i, k) <= digits_val(s, i, j),
        digits_val(s, i, k) >= 0,
    decreases j - k,
{
    if k == j {
        lemma_digits_val_nonneg(s, i, k);
    } else {
        lemma_digits_val_mono(s, i, k, j - 1);
        lemma_digits_val_nonneg(s, i, j - 1);
        assert(digits_val(s, i, j - 1) * 10 >= digits_val(s, i, j - 1)) by (nonlinear_arith)
            requires digits_val(s, i, j - 1) >= 0;
    }
}

proof fn lemma_digits_val_nonneg(s: Seq<char>, i: int, j: int)
    requires
        forall|m: int| i <= m < j ==> is_digit(s[m]) || s[m] == '.',
    ensures
        digits_val(s, i, j) >= 0,
    decreases j - i,
{
    if i < j {
        lemma_digits_val_nonneg(s, i, j - 1);
        if s[j - 1] != '.' {
            assert(digits_val(s, i, j - 1) * 10 >= 0) by (nonlinear_arith)
                requires digits_val(s, i, j - 1) >= 0;
        }
    }
}

/// `has_dot` agrees with a positive dot count.
proof fn lemma_dot_count_has_dot(s: Seq<char>, i: int, j: int)
    ensures
        dot_count(s, i, j) >= 0,
        has_dot(s, i, j) == (dot_count(s, i, j) > 0),
    decreases j - i,
{
    if i < j {
        lemma_dot_count_has_dot(s, i, j - 1);
    }
}

/// What an operator decides about two values.
///
/// `!=` is the boolean negation of `=`; `<=` and `>=` are the disjunctions
/// of the strict orders with `=`. `AND` and `OR` combine two boolean values
/// and are false on anything else.
pub open spec fn ops_compare(op: Ops, a: ValueView, b: ValueView) -> bool {
    match op {
        Ops::Eq => value_eq(a, b),
        Ops::Ne => !value_eq(a, b),
        Ops::Lt => value_lt(a, b),
        Ops::Gt => value_lt(b, a),
        Ops::Loe => value_lt(a, b) || value_eq(a, b),
        Ops::Goe => value_lt(b, a) || value_eq(a, b),
        Ops::And => match (a, b) {
            (ValueView::Bool(x), ValueView::Bool(y)) => x && y,
            _ => false,
        },
        Ops::Or => match (a, b) {
            (ValueView::Bool(x), ValueView::Bool(y)) => x || y,
            _ => false,
        },
    }
}

/// Predicate semantics: for any two values, `!=` decides exactly the
/// negation of `=`, and each non-strict order decides exactly the
/// disjunction of its strict order with `=`.
pub proof fn lemma_predicate_semantics(a: ValueView, b: ValueView)
    ensures
        ops_compare(Ops::Ne, a, b) == !ops_compare(Ops::Eq, a, b),
        ops_compare(Ops::Loe, a, b) == (ops_compare(Ops::Lt, a, b) || ops_compare(Ops::Eq, a, b)),
        ops_compare(Ops::Goe, a, b) == (ops_compare(Ops::Gt, a, b) || ops_compare(Ops::Eq, a, b)),
{
}

impl Ops {
    /// Decide this operator on two values.
    pub fn compare(&self, l: Value, r: Value) -> (res: bool)
        ensures
            res == ops_compare(*self, l@, r@),
    {
        match self {
            Ops::Eq => values_equal(&l, &r),
            Ops::Ne => !values_equal(&l, &r),
            Ops::Lt => values_less(&l, &r),
            Ops::Gt => values_less(&r, &l),
            Ops::Loe => values_less(&l, &r) || values_equal(&l, &r),
            Ops::Goe => values_less(&r, &l) || values_equal(&l, &r),
            Ops::And => match (&l, &r) {
                (Value::Bool(x), Value::Bool(y)) => *x && *y,
                _ => false,
            },
            Ops::Or => match (&l, &r) {
                (Value::Bool(x), Value::Bool(y)) => *x || *y,
                _ => false,
            },
        }
    }
}

impl Token {
    /// The name carried by an identifier token.
    pub fn as_identifier(&self) -> (r: Option<&str>)
        ensures
            match r {
                Some(s) => self@ matches TokenView::Identifier(w) && s@ == w,
                None => !(self@ matches TokenView::Identifier(_)),
            },
    {
        match self {
            Token::Identifier(ident) => Some(ident.as_str()),
            _ => None,
        }
    }

    /// The operator carried by an operator token.
    pub fn as_op(&self) -> (r: Option<&Ops>)
        ensures
            match r {
                Some(o) => self@ == TokenView::Op(*o),
                None => !(self@ matches TokenView::Op(_)),
            },
    {
        match self {
            Token::Op(op) => Some(op),
            _ => None,
        }
    }

    /// The literal expression a literal token denotes.
    pub fn as_literal(&self) -> (r: Option<Expr>)
        ensures
            match r {
                Some(e) => match self@ {
                    TokenView::Int(i) => super::ast::expr_view(e) == super::ast::ExprView::Int(i),
                    TokenView::Real(x) => super::ast::expr_view(e) == super::ast::ExprView::Real(x),
                    TokenView::Null => super::ast::expr_view(e) == super::ast::ExprView::Null,
                    TokenView::String(w) => super::ast::expr_view(e) == super::ast::ExprView::Text(w),
                    _ => false,
                },
                None => match self@ {
                    TokenView::Int(_) | TokenView::Real(_) | TokenView::Null
                        | TokenView::String(_) => false,
                    _ => true,
                },
            },
    {
        match self {
            Token::Int(i) => Some(Expr::Int(*i)),
            Token::Real(x) => Some(Expr::Real(*x)),
            Token::Null => Some(Expr::Null),
            Token::String(v) => Some(Expr::Text(v.clone())),
            _ => None,
        }
    }
}

/// Tokenize an SQL input.
pub fn tokenize(input: &str) -> (r: Result<Vec<Token>, DbError>)
    ensures
        match r {
            Ok(ts) => spec_tokenize(input@) == Ok::<Seq<TokenView>, ()>(
                ts@.map(|k: int, t: Token| t@),
            ),
            Err(e) => spec_tokenize(input@) == Err::<Seq<TokenView>, ()>(()) && e.kind
                == ErrorKind::Parse,
        },
{
    let ghost sv = input@;
    if !input.is_ascii() {
        return Err(DbError::new(ErrorKind::Parse, "unexpected character"));
    }
    let len = input.unicode_len();
    let mut tokens: Vec<Token> = Vec::new();
    let mut i: usize = 0;
    proof {
        match tokens_from(sv, 0) {
            Ok(rest) => {
                assert(tokens@.map(|k: int, t: Token| t@) + rest =~= rest);
            },
            Err(_) => {},
        }
    }
    while i < len
        invariant
            input.is_ascii(),
            sv == input@,
            len == sv.len(),
            i <= len,
            tokens_from(sv, 0) == (match tokens_from(sv, i as int) {
                Ok(rest) => Ok::<Seq<TokenView>, ()>(tokens@.map(|k: int, t: Token| t@) + rest),
                Err(u) => Err::<Seq<TokenView>, ()>(u),
            }),
        decreases len - i,
    {
        proof {
            assert(sv[i as int] <= (127u8 as char));
        }
        let ghost oi = i as int;
        let ghost prev = tokens@;
        let b = input.get_ascii(i);
        let mut produced: Option<Token> = None;
        if b == 32 || b == 9 || b == 10 || b == 13 {
            i = i + 1;
        } else if b == 42 {
            produced = Some(Token::Star);
            i = i + 1;
        } else if b == 44 {
            produced = Some(Token::Comma);
            i = i + 1;
        } else if b == 59 {
            produced = Some(Token::SemiColon);
            i = i + 1;
        } else if b == 40 {
            produced = Some(Token::LPar);
            i = i + 1;
        } else if b == 41 {
            produced = Some(Token::RPar);
            i = i + 1;
        } else if b == 61 || b == 60 || b == 62 || b == 33 {
            let two = if i + 1 < len {
                proof {
                    assert(sv[i as int + 1] <= (127u8 as char));
                }
                input.get_ascii(i + 1) == 61
            } else {
                false
            };
            if two {
                if b == 33 {
                    produced = Some(Token::Op(Ops::Ne));
                } else if b == 60 {
                    produced = Some(Token::Op(Ops::Loe));
                } else if b == 62 {
                    produced = Some(Token::Op(Ops::Goe));
                } else {
                    return Err(DbError::new(ErrorKind::Parse, "unexpected character"));
                }
                i = i + 2;
            } else {
                if b == 61 {
                    produced = Some(Token::Op(Ops::Eq));
                } else if b == 60 {
                    produced = Some(Token::Op(Ops::Lt));
                } else if b == 62 {
                    produced = Some(Token::Op(Ops::Gt));
                } else {
                    return Err(DbError::new(ErrorKind::Parse, "unexpected character"));
                }
                i = i + 1;
            }
        } else if 48 <= b && b <= 57 {
            proof {
                lemma_span_ends(sv, i as int + 1);
            }
            let j = scan_num_end(input, i);
            proof {
                lemma_num_span_chars(sv, i as int, j as int);
                assert(j > i);
            }
            match scan_number(input, i, j) {
                Ok(t) => {
                    produced = Some(t);
                },
                Err(e) => {
                    return Err(e);
                },
            }
            i = j;
        } else if b == 39 || b == 34 {
            let j = scan_str_end(input, i + 1);
            let closed = if j < len {
                proof {
                    assert(sv[j as int] <= (127u8 as char));
                }
                let q = input.get_ascii(j);
                q == 39 || q == 34
            } else {
                false
            };
            if !closed {
                return Err(DbError::new(ErrorKind::Parse, "unterminated string"));
            }
            let w = span_string(input, i + 1, j);
            produced = Some(Token::String(w));
            i = j + 1;
        } else if (65 <= b && b <= 90) || (97 <= b && b <= 122) {
            proof {
                lemma_span_ends(sv, i as int + 1);
            }
            let j = scan_ident_end(input, i);
            proof {
                assert(j > i);
            }
            let w = lower_span_string(input, i, j);
            let t = if w == String::from_str("create") {
                Token::Create
            } else if w == String::from_str("table") {
                Token::Table
            } else if w == String::from_str("select") {
                Token::Select
            } else if w == String::from_str("where") {
                Token::Where
            } else if w == String::from_str("as") {
                Token::As
            } else if w == String::from_str("from") {
                Token::From
            } else if w == String::from_str("and") {
                Token::Op(Ops::And)
            } else if w == String::from_str("or") {
                Token::Op(Ops::Or)
            } else if w == String::from_str("null") {
                Token::Null
            } else {
                Token::Identifier(w)
            };
            produced = Some(t);
            i = j;
        } else {
            return Err(DbError::new(ErrorKind::Parse, "unexpected character"));
        }
        match produced {
            Some(t) => {
                tokens.push(t);
                proof {
                    match tokens_from(sv, i as int) {
                        Ok(rest) => {
                            assert(tokens@.map(|k: int, t: Token| t@) + rest =~= prev.map(
                                |k: int, t: Token| t@,
                            ) + (seq![tokens@.map(|k: int, t: Token| t@).last()] + rest));
                        },
                        Err(_) => {},
                    }
                }
            },
            None => {},
        }
    }
    proof {
        match tokens_from(sv, i as int) {
            Ok(rest) => {
                assert(tokens@.map(|k: int, t: Token| t@) + rest =~= tokens@.map(
                    |k: int, t: Token| t@,
                ));
            },
            Err(_) => {},
        }
    }
    Ok(tokens)
}

/// Every character of a number span is a digit or a dot.
proof fn lemma_num_span_chars(s: Seq<char>, i: int, j: int)
    requires
        j == num_end(s, i),
        0 <= i,
    ensures
        forall|m: int| i <= m < j ==> is_digit(s[m]) || s[m] == '.',
        j >= i,
    decreases s.len() - i,
{
    lemma_span_ends(s, i);
    if 0 <= i < s.len() && (is_digit(s[i]) || s[i] == '.') {
        lemma_num_span_chars(s, i + 1, j);
    }
}

} // verus!
