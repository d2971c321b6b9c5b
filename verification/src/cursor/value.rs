//! Typed field values and the comparison semantics that predicates use.
//!
//! Real values are carried as the raw bit pattern of their on-disk IEEE-754
//! encoding; the comparison functions order those bit patterns exactly as
//! the encoded numbers are ordered (treating the two zeros as equal, and
//! every comparison against a NaN pattern as false).

use vstd::prelude::*;

use crate::clone_bytes;

verus! {

/// The mathematical content of a [`Value`] or an [`OwnedValue`].
pub enum ValueView {
    Null,
    Text(Seq<char>),
    Bytes(Seq<u8>),
    Int(int),
    Float(u64),
    Bool(bool),
}

/// A typed value decoded from a record field or written in a query.
///
/// `Float` holds the big-endian bit pattern of the on-disk IEEE-754 double.
#[derive(Debug, Clone, PartialEq)]
pub enum Value {
    Null,
    String(String),
    Blob(Vec<u8>),
    Int(i64),
    Float(u64),
    Bool(bool),
}

impl View for Value {
    type V = ValueView;

    open spec fn view(&self) -> ValueView {
        match self {
            Value::Null => ValueView::Null,
            Value::String(s) => ValueView::Text(s@),
            Value::Blob(b) => ValueView::Bytes(b@),
            Value::Int(i) => ValueView::Int(*i as int),
            Value::Float(bits) => ValueView::Float(*bits),
            Value::Bool(b) => ValueView::Bool(*b),
        }
    }
}

/// A value that owns its contents outright, handed to callers across
/// iteration steps.
#[derive(Debug, Clone, PartialEq)]
pub enum OwnedValue {
    Null,
    String(String),
    Blob(Vec<u8>),
    Int(i64),
    Bool(bool),
    Float(u64),
}

impl View for OwnedValue {
    type V = ValueView;

    open spec fn view(&self) -> ValueView {
        match self {
            OwnedValue::Null => ValueView::Null,
            OwnedValue::String(s) => ValueView::Text(s@),
            OwnedValue::Blob(b) => ValueView::Bytes(b@),
            OwnedValue::Int(i) => ValueView::Int(*i as int),
            OwnedValue::Float(bits) => ValueView::Float(*bits),
            OwnedValue::Bool(b) => ValueView::Bool(*b),
        }
    }
}

impl Value {
    /// The text content, for text values only.
    pub fn as_str(&self) -> (r: Option<&str>)
        ensures
            match r {
                Some(s) => self@ matches ValueView::Text(t) && s@ == t,
                None => !(self@ matches ValueView::Text(_)),
            },
    {
        if let Value::String(s) = self {
            Some(s.as_str())
        } else {
            None
        }
    }

    /// The integer content, for integer values only.
    pub fn as_int(&self) -> (r: Option<i64>)
        ensures
            match r {
                Some(i) => self@ == ValueView::Int(i as int),
                None => !(self@ matches ValueView::Int(_)),
            },
    {
        if let Value::Int(i) = self {
            Some(*i)
        } else {
            None
        }
    }

    /// Copy this value into one that owns its contents.
    pub fn to_owned_value(&self) -> (r: OwnedValue)
        ensures
            r@ == self@,
    {
        match self {
            Value::Null => OwnedValue::Null,
            Value::String(s) => OwnedValue::String(s.clone()),
            Value::Blob(b) => OwnedValue::Blob(clone_bytes(b)),
            Value::Int(i) => OwnedValue::Int(*i),
            Value::Float(bits) => OwnedValue::Float(*bits),
            Value::Bool(b) => OwnedValue::Bool(*b),
        }
    }
}


/// The NaN bit patterns: exponent all ones with a nonzero fraction.
pub open spec fn float_is_nan(bits: u64) -> bool {
    bits as int / 0x10_0000_0000_0000 % 0x800 == 0x7FF && bits as int % 0x10_0000_0000_0000 != 0
}

/// The two zero bit patterns.
pub open spec fn float_is_zero(bits: u64) -> bool {
    bits == 0 || bits == 0x8000_0000_0000_0000
}

/// A monotone integer key for finite and infinite doubles: bit patterns map
/// to keys in exactly the numeric order of the encoded values, with the two
/// zeros sharing one key.
pub open spec fn float_key(bits: u64) -> int {
    if float_is_zero(bits) {
        0x8000_0000_0000_0000
    } else if bits < 0x8000_0000_0000_0000 {
        bits + 0x8000_0000_0000_0000
    } else {
        0x1_0000_0000_0000_0000 - bits
    }
}

/// Two real bit patterns encode equal numbers: neither is a NaN and their
/// keys agree.
pub open spec fn float_eq(a: u64, b: u64) -> bool {
    !float_is_nan(a) && !float_is_nan(b) && float_key(a) == float_key(b)
}

/// One real bit pattern encodes a smaller number than another.
pub open spec fn float_lt(a: u64, b: u64) -> bool {
    !float_is_nan(a) && !float_is_nan(b) && float_key(a) < float_key(b)
}

/// Lexicographic order on sequences of comparable elements, as a spec over
/// character sequences.
pub open spec fn chars_lt(a: Seq<char>, b: Seq<char>) -> bool
    decreases a.len(),
{
    if b.len() == 0 {
        false
    } else if a.len() == 0 {
        true
    } else if (a[0] as u32) < (b[0] as u32) {
        true
    } else if (a[0] as u32) > (b[0] as u32) {
        false
    } else {
        chars_lt(a.drop_first(), b.drop_first())
    }
}

/// Lexicographic order on byte sequences.
pub open spec fn bytes_lt(a: Seq<u8>, b: Seq<u8>) -> bool
    decreases a.len(),
{
    if b.len() == 0 {
        false
    } else if a.len() == 0 {
        true
    } else if a[0] < b[0] {
        true
    } else if a[0] > b[0] {
        false
    } else {
        bytes_lt(a.drop_first(), b.drop_first())
    }
}

/// Equality between two values: `NULL` equals only `NULL`, same-kind values
/// compare by content, and mixed kinds are never equal.
pub open spec fn value_eq(a: ValueView, b: ValueView) -> bool {
    match (a, b) {
        (ValueView::Null, ValueView::Null) => true,
        (ValueView::Int(x), ValueView::Int(y)) => x == y,
        (ValueView::Float(x), ValueView::Float(y)) => float_eq(x, y),
        (ValueView::Text(x), ValueView::Text(y)) => x == y,
        (ValueView::Bytes(x), ValueView::Bytes(y)) => x == y,
        (ValueView::Bool(x), ValueView::Bool(y)) => x == y,
        _ => false,
    }
}

/// Strict order between two values: integers and reals numerically, text
/// codepoint-wise, blobs byte-wise, `false` before `true`; every comparison
/// involving `NULL` or mixed kinds is false.
pub open spec fn value_lt(a: ValueView, b: ValueView) -> bool {
    match (a, b) {
        (ValueView::Int(x), ValueView::Int(y)) => x < y,
        (ValueView::Float(x), ValueView::Float(y)) => float_lt(x, y),
        (ValueView::Text(x), ValueView::Text(y)) => chars_lt(x, y),
        (ValueView::Bytes(x), ValueView::Bytes(y)) => bytes_lt(x, y),
        (ValueView::Bool(x), ValueView::Bool(y)) => !x && y,
        _ => false,
    }
}

/// Compare two strings in codepoint order.
fn str_lt(a: &String, b: &String) -> (r: bool)
    ensures
        r == chars_lt(a@, b@),
{
    let alen = a.as_str().unicode_len();
    let blen = b.as_str().unicode_len();
    let mut i: usize = 0;
    proof {
        assert(a@.skip(0) =~= a@);
        assert(b@.skip(0) =~= b@);
        assert(a@.subrange(0, 0) =~= b@.subrange(0, 0));
    }
    while i < alen && i < blen
        invariant
            alen == a@.len(),
            blen == b@.len(),
            i <= alen,
            i <= blen,
            a@.subrange(0, i as int) =~= b@.subrange(0, i as int),
            chars_lt(a@, b@) == chars_lt(a@.skip(i as int), b@.skip(i as int)),
        decreases alen - i,
    {
        let ca = a.as_str().get_char(i);
        let cb = b.as_str().get_char(i);
        let ghost sa = a@.skip(i as int);
        let ghost sb = b@.skip(i as int);
        assert(sa[0] == a@[i as int] && sb[0] == b@[i as int]);
        if (ca as u32) < (cb as u32) {
            return true;
        }
        if (ca as u32) > (cb as u32) {
            return false;
        }
        i = i + 1;
        proof {
            assert(sa.drop_first() =~= a@.skip(i as int));
            assert(sb.drop_first() =~= b@.skip(i as int));
            assert(a@.subrange(0, i as int) =~= b@.subrange(0, i as int));
        }
    }
    proof {
        let sa = a@.skip(i as int);
        let sb = b@.skip(i as int);
        assert(sa.len() == 0 || sb.len() == 0);
    }
    alen < blen
}

/// Compare two byte vectors lexicographically.
fn blob_lt(a: &Vec<u8>, b: &Vec<u8>) -> (r: bool)
    ensures
        r == bytes_lt(a@, b@),
{
    let alen = a.len();
    let blen = b.len();
    let mut i: usize = 0;
    proof {
        assert(a@.skip(0) =~= a@);
        assert(b@.skip(0) =~= b@);
    }
    while i < alen && i < blen
        invariant
            alen == a@.len(),
            blen == b@.len(),
            i <= alen,
            i <= blen,
            bytes_lt(a@, b@) == bytes_lt(a@.skip(i as int), b@.skip(i as int)),
        decreases alen - i,
    {
        let ca = a[i];
        let cb = b[i];
        let ghost sa = a@.skip(i as int);
        let ghost sb = b@.skip(i as int);
        assert(sa[0] == a@[i as int] && sb[0] == b@[i as int]);
        if ca < cb {
            return true;
        }
        if ca > cb {
            return false;
        }
        i = i + 1;
        proof {
            assert(sa.drop_first() =~= a@.skip(i as int));
            assert(sb.drop_first() =~= b@.skip(i as int));
        }
    }
    alen < blen
}

/// Compare two byte vectors for equality.
fn blob_eq(a: &Vec<u8>, b: &Vec<u8>) -> (r: bool)
    ensures
        r == (a@ == b@),
{
    if a.len() != b.len() {
        return false;
    }
    let mut i: usize = 0;
    while i < a.len()
        invariant
            a@.len() == b@.len(),
            i <= a@.len(),
            forall|j: int| 0 <= j < i ==> a@[j] == b@[j],
        decreases a@.len() - i,
    {
        if a[i] != b[i] {
            return false;
        }
        i = i + 1;
    }
    proof {
        assert(a@ =~= b@);
    }
    true
}

/// Decide equality between two values.
pub fn values_equal(l: &Value, r: &Value) -> (res: bool)
    ensures
        res == value_eq(l@, r@),
{
    match (l, r) {
        (Value::Null, Value::Null) => true,
        (Value::Int(x), Value::Int(y)) => *x == *y,
        (Value::Float(x), Value::Float(y)) => {
            let nan_x = *x / 0x10_0000_0000_0000 % 0x800 == 0x7FF && *x % 0x10_0000_0000_0000 != 0;
            let nan_y = *y / 0x10_0000_0000_0000 % 0x800 == 0x7FF && *y % 0x10_0000_0000_0000 != 0;
            if nan_x || nan_y {
                false
            } else {
                float_key_exec(*x) == float_key_exec(*y)
            }
        },
        (Value::String(x), Value::String(y)) => *x == *y,
        (Value::Blob(x), Value::Blob(y)) => blob_eq(x, y),
        (Value::Bool(x), Value::Bool(y)) => *x == *y,
        _ => false,
    }
}

/// Decide strict order between two values.
pub fn values_less(l: &Value, r: &Value) -> (res: bool)
    ensures
        res == value_lt(l@, r@),
{
    match (l, r) {
        (Value::Int(x), Value::Int(y)) => *x < *y,
        (Value::Float(x), Value::Float(y)) => {
            let nan_x = *x / 0x10_0000_0000_0000 % 0x800 == 0x7FF && *x % 0x10_0000_0000_0000 != 0;
            let nan_y = *y / 0x10_0000_0000_0000 % 0x800 == 0x7FF && *y % 0x10_0000_0000_0000 != 0;
            if nan_x || nan_y {
                false
            } else {
                let kx = float_key_exec(*x);
                let ky = float_key_exec(*y);
                kx < ky
            }
        },
        (Value::String(x), Value::String(y)) => str_lt(x, y),
        (Value::Blob(x), Value::Blob(y)) => blob_lt(x, y),
        (Value::Bool(x), Value::Bool(y)) => !*x && *y,
        _ => false,
    }
}

/// The monotone key of a real bit pattern, shifted into `u128` range.
fn float_key_exec(bits: u64) -> (k: u128)
    ensures
        k == float_key(bits),
{
    if bits == 0 || bits == 0x8000_0000_0000_0000 {
        0x8000_0000_0000_0000
    } else if bits < 0x8000_0000_0000_0000 {
        bits as u128 + 0x8000_0000_0000_0000
    } else {
        0x1_0000_0000_0000_0000 - bits as u128
    }
}

/// `10^n`.
pub open spec fn pow10(n: nat) -> int
    decreases n,
{
    if n == 0 {
        1
    } else {
        10 * pow10((n - 1) as nat)
    }
}

/// How a real bit pattern compares with the exact decimal
/// `mantissa * 10^-scale`: negative, zero or positive for less, equal or
/// greater; nothing for the NaN patterns. An encoded number is
/// `(-1)^sign * m2 * 2^e`, so against a non-negative decimal the comparison
/// is the integer comparison of `m2 * 10^scale * 2^e` with `mantissa`, with
/// the power of two moved to whichever side keeps both integers.
pub open spec fn real_lit_cmp(bits: u64, mantissa: u64, scale: u8) -> Option<int> {
    let sign = bits as int / 0x8000_0000_0000_0000;
    let expf = bits as int / 0x10_0000_0000_0000 % 0x800;
    let frac = bits as int % 0x10_0000_0000_0000;
    if expf == 0x7FF {
        if frac != 0 {
            None
        } else if sign == 0 {
            Some(1)
        } else {
            Some(-1)
        }
    } else {
        let m2 = if expf == 0 {
            frac
        } else {
            frac + 0x10_0000_0000_0000
        };
        let e = if expf == 0 {
            -1074
        } else {
            expf - 1075
        };
        if sign == 1 && m2 != 0 {
            Some(-1)
        } else {
            let lhs = m2 * pow10(scale as nat) * (if e >= 0 {
                vstd::arithmetic::power2::pow2(e as nat) as int
            } else {
                1
            });
            let rhs = mantissa * (if e < 0 {
                vstd::arithmetic::power2::pow2((-e) as nat) as int
            } else {
                1
            });
            if lhs < rhs {
                Some(-1)
            } else if lhs == rhs {
                Some(0)
            } else {
                Some(1)
            }
        }
    }
}

/// `10^n` in closed form for the scales a literal can carry.
proof fn lemma_pow10_values()
    ensures
        pow10(0) == 1,
        pow10(18) == 0xDE0B6B3A7640000,
        forall|a: nat, b: nat| a <= b ==> #[trigger] pow10(a) <= #[trigger] pow10(b),
        forall|n: nat| #[trigger] pow10(n) >= 1,
{
    assert(pow10(18) == 0xDE0B6B3A7640000) by {
        reveal_with_fuel(pow10, 19);
    }
    assert forall|n: nat| #[trigger] pow10(n) >= 1 by {
        lemma_pow10_pos(n);
    }
    assert forall|a: nat, b: nat| a <= b implies #[trigger] pow10(a) <= #[trigger] pow10(b) by {
        lemma_pow10_mono(a, b);
    }
}

proof fn lemma_pow10_pos(n: nat)
    ensures
        pow10(n) >= 1,
    decreases n,
{
    if n > 0 {
        lemma_pow10_pos((n - 1) as nat);
    }
}

proof fn lemma_pow10_mono(a: nat, b: nat)
    requires
        a <= b,
    ensures
        pow10(a) <= pow10(b),
    decreases b,
{
    if a < b {
        lemma_pow10_mono(a, (b - 1) as nat);
        lemma_pow10_pos((b - 1) as nat);
    }
}

/// Compute `10^scale`.
fn pow10_u64(scale: u8) -> (r: u64)
    requires
        scale <= 18,
    ensures
        r == pow10(scale as nat),
        r >= 1,
{
    proof {
        lemma_pow10_values();
    }
    let mut r: u64 = 1;
    let mut i: u8 = 0;
    while i < scale
        invariant
            i <= scale <= 18,
            r == pow10(i as nat),
            pow10(18) == 0xDE0B6B3A7640000,
            forall|a: nat, b: nat| a <= b ==> #[trigger] pow10(a) <= #[trigger] pow10(b),
            forall|n: nat| #[trigger] pow10(n) >= 1,
        decreases scale - i,
    {
        proof {
            assert(pow10(i as nat) <= pow10(17)) by {
                assert(pow10(17) * 10 == pow10(18));
                assert(pow10(17) <= pow10(18));
            }
            assert(pow10(17) == 0x16345785D8A0000) by {
                reveal_with_fuel(pow10, 19);
            }
        }
        r = r * 10;
        i = i + 1;
    }
    r
}

/// Decide how a real bit pattern compares with an exact decimal literal:
/// `Some(-1)`, `Some(0)` or `Some(1)` for less, equal or greater, `None` for
/// the NaN patterns.
pub fn compare_real_lit(bits: u64, mantissa: u64, scale: u8) -> (r: Option<i8>)
    requires
        scale <= 18,
    ensures
        match r {
            Some(c) => real_lit_cmp(bits, mantissa, scale) == Some(c as int) && (c == -1 || c == 0
                || c == 1),
            None => real_lit_cmp(bits, mantissa, scale) is None,
        },
{
    let sign: u64 = bits / 0x8000_0000_0000_0000;
    let expf: u64 = bits / 0x10_0000_0000_0000 % 0x800;
    let frac: u64 = bits % 0x10_0000_0000_0000;
    if expf == 0x7FF {
        if frac != 0 {
            return None;
        }
        return if sign == 0 {
            Some(1)
        } else {
            Some(-1)
        };
    }
    let m2: u64 = if expf == 0 {
        frac
    } else {
        frac + 0x10_0000_0000_0000
    };
    let e0: i32 = if expf == 0 {
        -1074
    } else {
        expf as i32 - 1075
    };
    if sign == 1 && m2 != 0 {
        return Some(-1);
    }

    let tens = pow10_u64(scale);
    proof {
        lemma_pow10_values();
        vstd::arithmetic::mul::lemma_mul_upper_bound(
            m2 as int,
            0x20_0000_0000_0000,
            tens as int,
            0xDE0B6B3A7640000,
        );
    }
    let mut lhs: u128 = m2 as u128 * tens as u128;
    let mut rhs: u128 = mantissa as u128;
    let ghost spec_lhs = m2 * pow10(scale as nat) * (if e0 >= 0 {
        vstd::arithmetic::power2::pow2(e0 as nat) as int
    } else {
        1
    });
    let ghost spec_rhs = mantissa * (if e0 < 0 {
        vstd::arithmetic::power2::pow2((-e0) as nat) as int
    } else {
        1
    });

    if e0 >= 0 {
        let mut e = e0;
        while e > 0
            invariant
                0 <= e <= e0,
                rhs == mantissa,
                spec_lhs == m2 * pow10(scale as nat) * vstd::arithmetic::power2::pow2(e0 as nat),
                spec_rhs == mantissa,
                lhs * vstd::arithmetic::power2::pow2(e as nat) == spec_lhs,
                real_lit_cmp(bits, mantissa, scale) == (if spec_lhs < spec_rhs {
                    Some(-1int)
                } else if spec_lhs == spec_rhs {
                    Some(0int)
                } else {
                    Some(1int)
                }),
            decreases e,
        {
            proof {
                vstd::arithmetic::power2::lemma_pow2_pos(e as nat);
            }
            if lhs > rhs {
                proof {
                    vstd::arithmetic::mul::lemma_mul_inequality(
                        1,
                        vstd::arithmetic::power2::pow2(e as nat) as int,
                        lhs as int,
                    );
                    assert(spec_lhs == lhs * vstd::arithmetic::power2::pow2(e as nat));
                    assert(1 * (lhs as int) <= vstd::arithmetic::power2::pow2(e as nat) * (
                    lhs as int));
                    assert(vstd::arithmetic::power2::pow2(e as nat) * (lhs as int) == (lhs as int)
                        * vstd::arithmetic::power2::pow2(e as nat)) by (nonlinear_arith);
                    assert(spec_lhs >= lhs);
                    assert(spec_lhs > spec_rhs);
                }
                return Some(1);
            }
            let ghost lhs0 = lhs as int;
            let ghost ep = e as int;
            lhs = lhs * 2;
            e = e - 1;
            proof {
                vstd::arithmetic::power2::lemma_pow2_unfold(ep as nat);
                assert((2 * lhs0) * vstd::arithmetic::power2::pow2(e as nat) == lhs0 * (2
                    * vstd::arithmetic::power2::pow2(e as nat))) by (nonlinear_arith);
            }
        }
        proof {
            vstd::arithmetic::power2::lemma2_to64();
            assert(e == 0);
            assert(lhs * vstd::arithmetic::power2::pow2(0) == spec_lhs);
            assert(lhs == spec_lhs);
            assert(rhs == spec_rhs);
        }
    } else {
        let mut e = e0;
        while e < 0
            invariant
                e0 <= e <= 0,
                e0 < 0,
                lhs == m2 * pow10(scale as nat),
                lhs <= 0x2_0000_0000_0000_0000_0000_0000_0000,
                spec_lhs == lhs,
                spec_rhs == mantissa * vstd::arithmetic::power2::pow2((-e0) as nat),
                rhs * vstd::arithmetic::power2::pow2((-e) as nat) == spec_rhs,
                real_lit_cmp(bits, mantissa, scale) == (if spec_lhs < spec_rhs {
                    Some(-1int)
                } else if spec_lhs == spec_rhs {
                    Some(0int)
                } else {
                    Some(1int)
                }),
            decreases 0 - e,
        {
            proof {
                vstd::arithmetic::power2::lemma_pow2_pos((-e) as nat);
            }
            if rhs > lhs {
                proof {
                    vstd::arithmetic::mul::lemma_mul_inequality(
                        1,
                        vstd::arithmetic::power2::pow2((-e) as nat) as int,
                        rhs as int,
                    );
                    assert(spec_rhs == rhs * vstd::arithmetic::power2::pow2((-e) as nat));
                    assert(1 * (rhs as int) <= vstd::arithmetic::power2::pow2((-e) as nat) * (
                    rhs as int));
                    assert(vstd::arithmetic::power2::pow2((-e) as nat) * (rhs as int) == (
                    rhs as int) * vstd::arithmetic::power2::pow2((-e) as nat)) by (nonlinear_arith);
                    assert(spec_rhs >= rhs);
                    assert(spec_rhs > spec_lhs);
                }
                return Some(-1);
            }
            let ghost rhs0 = rhs as int;
            let ghost ep = (-e) as int;
            rhs = rhs * 2;
            e = e + 1;
            proof {
                vstd::arithmetic::power2::lemma_pow2_unfold(ep as nat);
                assert((2 * rhs0) * vstd::arithmetic::power2::pow2((-e) as nat) == rhs0 * (2
                    * vstd::arithmetic::power2::pow2((-e) as nat))) by (nonlinear_arith);
            }
        }
        proof {
            vstd::arithmetic::power2::lemma2_to64();
            assert(e == 0);
            assert(rhs * vstd::arithmetic::power2::pow2(0) == spec_rhs);
            assert(lhs == spec_lhs);
            assert(rhs == spec_rhs);
        }
    }

    if lhs < rhs {
        Some(-1)
    } else if lhs == rhs {
        Some(0)
    } else {
        Some(1)
    }
}

} // verus!
