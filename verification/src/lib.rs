//! A read-only query engine over the SQLite v3 on-disk file format.
//!
//! The crate decodes database pages directly from an in-memory copy of the
//! file and answers a restricted subset of SQL (`SELECT ... FROM <table>
//! [WHERE <predicate>];`, plus `CREATE TABLE` definitions recovered from the
//! on-disk schema), streaming matching rows to the caller.

use vstd::prelude::*;

pub mod cursor;
pub mod db;
pub mod dbheader;
pub mod engine;
pub mod error;
pub mod page;
pub mod sql;

pub use page::pager;

verus! {

/// `be_uint(s, off, n)` is the value of the `n` bytes `s[off..off + n]`
/// interpreted as one big-endian unsigned integer.
pub open spec fn be_uint(s: Seq<u8>, off: int, n: int) -> int
    decreases n,
{
    if n <= 0 {
        0
    } else {
        be_uint(s, off, n - 1) * 256 + s[off + n - 1]
    }
}

/// `256^n`.
pub open spec fn pow256(n: nat) -> int
    decreases n,
{
    if n == 0 {
        1
    } else {
        256 * pow256((n - 1) as nat)
    }
}

/// A big-endian read of `n` bytes is below `256^n`.
pub proof fn lemma_be_uint_bound(s: Seq<u8>, off: int, n: int)
    requires
        0 <= n,
    ensures
        0 <= be_uint(s, off, n) < pow256(n as nat),
    decreases n,
{
    if n > 0 {
        lemma_be_uint_bound(s, off, n - 1);
    }
}

/// Read the byte at `offset`.
pub fn read_be_byte_at(input: &[u8], offset: usize) -> (r: u8)
    requires
        offset < input@.len(),
    ensures
        r == input@[offset as int],
{
    input[offset]
}

/// Read the 2 bytes at `offset` as a big-endian unsigned integer.
pub fn read_be_word_at(input: &[u8], offset: usize) -> (r: u16)
    requires
        offset + 2 <= input@.len(),
    ensures
        r == be_uint(input@, offset as int, 2),
{
    proof {
        reveal_with_fuel(be_uint, 3);
    }
    let hi = input[offset];
    let lo = input[offset + 1];
    hi as u16 * 256 + lo as u16
}

/// Read the 4 bytes at `offset` as a big-endian unsigned integer.
pub fn read_be_double_at(input: &[u8], offset: usize) -> (r: u32)
    requires
        offset + 4 <= input@.len(),
    ensures
        r == be_uint(input@, offset as int, 4),
{
    proof {
        reveal_with_fuel(be_uint, 5);
    }
    let b0 = input[offset] as u32;
    let b1 = input[offset + 1] as u32;
    let b2 = input[offset + 2] as u32;
    let b3 = input[offset + 3] as u32;
    ((b0 * 256 + b1) * 256 + b2) * 256 + b3
}

/// Copy a byte vector, keeping its contents.
pub fn clone_bytes(b: &Vec<u8>) -> (r: Vec<u8>)
    ensures
        r@ == b@,
{
    let mut out: Vec<u8> = Vec::new();
    let mut i: usize = 0;
    while i < b.len()
        invariant
            i <= b@.len(),
            out@ == b@.subrange(0, i as int),
        decreases b@.len() - i,
    {
        out.push(b[i]);
        i = i + 1;
        assert(out@ =~= b@.subrange(0, i as int));
    }
    assert(out@ =~= b@);
    out
}

/// The signed value that `n` bytes holding the unsigned big-endian value
/// `u` denote in two's complement.
pub open spec fn signed_of(u: int, n: nat) -> int {
    if u < pow256(n) / 2 {
        u
    } else {
        u - pow256(n)
    }
}

/// `256^n` for `n <= 8` in closed form, to relate spec powers to literals.
pub proof fn lemma_pow256_values()
    ensures
        pow256(0) == 1,
        pow256(1) == 0x100,
        pow256(2) == 0x1_0000,
        pow256(3) == 0x100_0000,
        pow256(4) == 0x1_0000_0000,
        pow256(5) == 0x100_0000_0000,
        pow256(6) == 0x1_0000_0000_0000,
        pow256(7) == 0x100_0000_0000_0000,
        pow256(8) == 0x1_0000_0000_0000_0000,
{
    reveal_with_fuel(pow256, 9);
}

/// Read the `n` bytes at `offset` as a big-endian unsigned integer.
pub fn read_be_uint_at(input: &[u8], offset: usize, n: usize) -> (r: u64)
    requires
        n <= 8,
        offset + n <= input@.len(),
    ensures
        r == be_uint(input@, offset as int, n as int),
{
    let ilen = input.len();
    let mut acc: u64 = 0;
    let mut i: usize = 0;
    proof {
        lemma_pow256_values();
    }
    while i < n
        invariant
            i <= n <= 8,
            ilen == input@.len(),
            offset + n <= input@.len(),
            acc == be_uint(input@, offset as int, i as int),
            pow256(8) == 0x1_0000_0000_0000_0000,
        decreases n - i,
    {
        proof {
            lemma_be_uint_bound(input@, offset as int, i as int);
            assert(pow256(i as nat) <= pow256(7)) by {
                reveal_with_fuel(pow256, 9);
            }
            assert(pow256(7) == 0x100_0000_0000_0000) by {
                reveal_with_fuel(pow256, 9);
            }
        }
        acc = acc * 256 + input[offset + i] as u64;
        i = i + 1;
    }
    acc
}

/// `128^n`.
pub open spec fn pow128(n: nat) -> int
    decreases n,
{
    if n == 0 {
        1
    } else {
        128 * pow128((n - 1) as nat)
    }
}

/// Length in bytes of the varint starting `d` continuation bytes into it.
///
/// A varint is big-endian base 128: the high bit of each byte is a
/// continuation flag; at most 8 continuation bytes are followed by a final
/// byte, and when all 8 high bits are set the 9th byte contributes all 8 of
/// its bits.
pub open spec fn varint_len_from(s: Seq<u8>, off: int, d: int) -> int
    decreases 8 - d,
{
    if d >= 8 {
        9
    } else if s[off + d] < 128 {
        d + 1
    } else {
        varint_len_from(s, off, d + 1)
    }
}

/// Length in bytes (1 to 9) of the varint starting at `off`.
pub open spec fn varint_len(s: Seq<u8>, off: int) -> int {
    varint_len_from(s, off, 0)
}

/// There is a complete varint at `off`: its last byte lies within `s`.
pub open spec fn varint_complete(s: Seq<u8>, off: int) -> bool {
    0 <= off && off + varint_len(s, off) <= s.len()
}

/// Value of the first `k` continuation bytes of a varint, high bits dropped,
/// accumulated big-endian base 128.
pub open spec fn varint_acc(s: Seq<u8>, off: int, k: int) -> int
    decreases k,
{
    if k <= 0 {
        0
    } else {
        varint_acc(s, off, k - 1) * 128 + (s[off + k - 1] - 128)
    }
}

/// The unsigned 64-bit value of the varint at `off`.
pub open spec fn varint_raw(s: Seq<u8>, off: int) -> int {
    let n = varint_len(s, off);
    if n <= 8 {
        varint_acc(s, off, n - 1) * 128 + s[off + n - 1]
    } else {
        varint_acc(s, off, 8) * 256 + s[off + 8]
    }
}

/// The unsigned value that a signed 64-bit integer encodes to.
pub open spec fn u64_of_i64(v: i64) -> int {
    if v >= 0 {
        v as int
    } else {
        v + 0x1_0000_0000_0000_0000
    }
}

/// The signed 64-bit value of the varint at `off`: the raw value reduced
/// modulo 2^64 into the range of `i64`.
pub open spec fn varint_value(s: Seq<u8>, off: int) -> i64 {
    let r = varint_raw(s, off);
    if r < 0x8000_0000_0000_0000 {
        r as i64
    } else {
        (r - 0x1_0000_0000_0000_0000) as i64
    }
}

/// If the first `d` bytes at `off` are all continuation bytes, scanning for
/// the varint's end may start `d` bytes in.
proof fn lemma_varint_len_skip(s: Seq<u8>, off: int, d: int)
    requires
        0 <= d <= 8,
        forall|j: int| 0 <= j < d ==> #[trigger] s[off + j] >= 128,
    ensures
        varint_len(s, off) == varint_len_from(s, off, d),
    decreases d,
{
    if d > 0 {
        lemma_varint_len_skip(s, off, d - 1);
        assert(varint_len_from(s, off, d - 1) == varint_len_from(s, off, d));
    }
}

/// The accumulated continuation value stays below `128^k`.
proof fn lemma_varint_acc_bound(s: Seq<u8>, off: int, k: int)
    requires
        0 <= k,
        forall|j: int| 0 <= j < k ==> #[trigger] s[off + j] >= 128,
    ensures
        0 <= varint_acc(s, off, k) < pow128(k as nat),
    decreases k,
{
    if k > 0 {
        lemma_varint_acc_bound(s, off, k - 1);
    }
}

/// `128^n` for `n <= 8` in closed form, to relate spec powers to literals.
proof fn lemma_pow128_values()
    ensures
        pow128(0) == 1,
        pow128(1) == 128,
        pow128(2) == 0x4000,
        pow128(3) == 0x20_0000,
        pow128(4) == 0x1000_0000,
        pow128(5) == 0x8_0000_0000,
        pow128(6) == 0x400_0000_0000,
        pow128(7) == 0x2_0000_0000_0000,
        pow128(8) == 0x100_0000_0000_0000,
{
    reveal_with_fuel(pow128, 9);
}

/// In-range scans never report an end before the bytes already scanned.
proof fn lemma_varint_len_from_range(s: Seq<u8>, off: int, d: int)
    requires
        0 <= d <= 8,
    ensures
        d < varint_len_from(s, off, d) <= 9,
    decreases 8 - d,
{
    if d < 8 && s[off + d] >= 128 {
        lemma_varint_len_from_range(s, off, d + 1);
    }
}

/// A varint always occupies between 1 and 9 bytes.
pub proof fn lemma_varint_len_at_least_one(s: Seq<u8>, off: int)
    ensures
        1 <= varint_len(s, off) <= 9,
{
    lemma_varint_len_from_range(s, off, 0);
}

/// Check that the varint starting at `pos` ends at or before `end`.
pub fn varint_ok_within(buffer: &[u8], pos: usize, end: usize) -> (b: bool)
    requires
        pos <= end <= buffer@.len(),
    ensures
        b == (pos + varint_len(buffer@, pos as int) <= end),
{
    let ghost s = buffer@;
    let ghost o = pos as int;
    let mut j: usize = 0;
    proof {
        lemma_varint_len_from_range(s, o, 0);
    }
    while j < 8
        invariant
            0 <= j <= 8,
            pos <= end <= s.len(),
            s == buffer@,
            o == pos,
            pos + j <= end,
            forall|i: int| 0 <= i < j ==> #[trigger] s[o + i] >= 128,
            varint_len(s, o) == varint_len_from(s, o, j as int),
        decreases 8 - j,
    {
        if pos + j >= end {
            proof {
                lemma_varint_len_from_range(s, o, j as int);
            }
            return false;
        }
        let b = buffer[pos + j];
        if b < 128 {
            return true;
        }
        j = j + 1;
        proof {
            lemma_varint_len_skip(s, o, j as int);
        }
    }
    pos + 8 < end
}

/// Read the varint at `offset`, returning its byte length and signed value.
pub fn read_varint_at(buffer: &[u8], offset: usize) -> (r: (u8, i64))
    requires
        varint_complete(buffer@, offset as int),
    ensures
        r.0 == varint_len(buffer@, offset as int),
        r.1 == varint_value(buffer@, offset as int),
        1 <= r.0 <= 9,
{
    let ghost s = buffer@;
    let ghost o = offset as int;
    let blen = buffer.len();
    let mut size: usize = 0;
    let mut acc: u64 = 0;
    proof {
        lemma_varint_len_from_range(s, o, 0);
    }
    while size < 8 && buffer[offset + size] >= 128
        invariant
            0 <= size <= 8,
            blen == s.len(),
            varint_complete(s, o),
            s == buffer@,
            o == offset,
            forall|j: int| 0 <= j < size ==> #[trigger] s[o + j] >= 128,
            acc == varint_acc(s, o, size as int),
            varint_len(s, o) == varint_len_from(s, o, size as int),
            size < varint_len(s, o),
        decreases 8 - size,
    {
        proof {
            lemma_varint_acc_bound(s, o, size as int);
            assert(pow128(size as nat) <= pow128(7) && pow128(7) == 0x2_0000_0000_0000) by {
                reveal_with_fuel(pow128, 9);
            }
        }
        let b = buffer[offset + size];
        acc = acc * 128 + (b - 128) as u64;
        size = size + 1;
        proof {
            lemma_varint_len_skip(s, o, size as int);
            lemma_varint_len_from_range(s, o, size as int);
        }
    }
    proof {
        lemma_varint_acc_bound(s, o, size as int);
        lemma_pow128_values();
    }
    if size == 8 {
        let b = buffer[offset + 8];
        acc = acc * 256 + b as u64;
        if acc >= 0x8000_0000_0000_0000 {
            (9, ((acc - 0x8000_0000_0000_0000) as i64 - 0x7FFF_FFFF_FFFF_FFFF) - 1)
        } else {
            (9, acc as i64)
        }
    } else {
        let b = buffer[offset + size];
        acc = acc * 128 + b as u64;
        (size as u8 + 1, acc as i64)
    }
}

/// The `k` low base-128 digits of `u`, most significant first, each with the
/// continuation bit set.
pub open spec fn enc_cont(u: int, k: int) -> Seq<u8>
    decreases k,
{
    if k <= 0 {
        Seq::empty()
    } else {
        enc_cont(u / 128, k - 1).push((u % 128 + 128) as u8)
    }
}

/// Number of bytes the varint encoding of an unsigned 64-bit value takes.
pub open spec fn varint_size(u: int) -> int {
    if u < 0x80 {
        1
    } else if u < 0x4000 {
        2
    } else if u < 0x20_0000 {
        3
    } else if u < 0x1000_0000 {
        4
    } else if u < 0x8_0000_0000 {
        5
    } else if u < 0x400_0000_0000 {
        6
    } else if u < 0x2_0000_0000_0000 {
        7
    } else if u < 0x100_0000_0000_0000 {
        8
    } else {
        9
    }
}

/// The varint encoding of an unsigned 64-bit value.
pub open spec fn varint_enc_raw(u: int) -> Seq<u8> {
    let n = varint_size(u);
    if n <= 8 {
        enc_cont(u / 128, n - 1).push((u % 128) as u8)
    } else {
        enc_cont(u / 256, 8).push((u % 256) as u8)
    }
}

/// The varint encoding of a signed 64-bit value.
pub open spec fn varint_enc(v: i64) -> Seq<u8> {
    varint_enc_raw(u64_of_i64(v))
}

proof fn lemma_enc_cont_shape(u: int, k: int)
    requires
        0 <= k,
    ensures
        enc_cont(u, k).len() == k,
        forall|j: int| 0 <= j < k ==> #[trigger] enc_cont(u, k)[j] >= 128,
    decreases k,
{
    if k > 0 {
        lemma_enc_cont_shape(u / 128, k - 1);
        assert forall|j: int| 0 <= j < k implies #[trigger] enc_cont(u, k)[j] >= 128 by {
            if j < k - 1 {
                assert(enc_cont(u, k)[j] == enc_cont(u / 128, k - 1)[j]);
            }
        }
    }
}

/// Reading back `k` continuation digits of `u` recovers `u`.
proof fn lemma_acc_of_enc(s: Seq<u8>, off: int, u: int, k: int)
    requires
        0 <= k,
        0 <= u < pow128(k as nat),
        forall|j: int| 0 <= j < k ==> s[off + j] == enc_cont(u, k)[j],
    ensures
        varint_acc(s, off, k) == u,
    decreases k,
{
    if k == 0 {
    } else {
        lemma_enc_cont_shape(u / 128, k - 1);
        assert(pow128(k as nat) == 128 * pow128((k - 1) as nat));
        vstd::arithmetic::div_mod::lemma_multiply_divide_lt(u, 128, pow128((k - 1) as nat));
        assert forall|j: int| 0 <= j < k - 1 implies #[trigger] s[off + j] == enc_cont(u / 128, k - 1)[j] by {
            assert(s[off + j] == enc_cont(u, k)[j]);
            assert(enc_cont(u, k)[j] == enc_cont(u / 128, k - 1)[j]);
        }
        lemma_acc_of_enc(s, off, u / 128, k - 1);
        assert(s[off + k - 1] == enc_cont(u, k)[k - 1]);
        assert(enc_cont(u, k)[k - 1] == (u % 128 + 128) as u8);
        vstd::arithmetic::div_mod::lemma_fundamental_div_mod(u, 128);
    }
}

/// Append the `k` low base-128 digits of `u`, most significant first, with
/// continuation bits set.
fn push_cont_digits(u: u64, k: usize, out: &mut Vec<u8>)
    requires
        k <= 8,
        u < pow128(k as nat),
    ensures
        final(out)@ == old(out)@ + enc_cont(u as int, k as int),
    decreases k,
{
    if k == 0 {
        assert(final(out)@ =~= old(out)@ + enc_cont(u as int, 0));
    } else {
        proof {
            assert(pow128(k as nat) == 128 * pow128((k - 1) as nat));
            vstd::arithmetic::div_mod::lemma_multiply_divide_lt(u as int, 128, pow128((k - 1) as nat));
        }
        push_cont_digits(u / 128, k - 1, out);
        out.push((u % 128) as u8 + 128);
        assert(final(out)@ =~= old(out)@ + enc_cont(u as int, k as int));
    }
}

/// Encode a signed 64-bit value as a varint of 1 to 9 bytes.
pub fn write_varint(value: i64) -> (r: Vec<u8>)
    ensures
        r@ == varint_enc(value),
        1 <= r@.len() <= 9,
{
    let u: u64 = if value >= 0 {
        value as u64
    } else {
        ((value + 0x7FFF_FFFF_FFFF_FFFF) + 1) as u64 + 0x8000_0000_0000_0000
    };
    assert(u == u64_of_i64(value));
    let n: usize = if u < 0x80 {
        1
    } else if u < 0x4000 {
        2
    } else if u < 0x20_0000 {
        3
    } else if u < 0x1000_0000 {
        4
    } else if u < 0x8_0000_0000 {
        5
    } else if u < 0x400_0000_0000 {
        6
    } else if u < 0x2_0000_0000_0000 {
        7
    } else if u < 0x100_0000_0000_0000 {
        8
    } else {
        9
    };
    assert(n == varint_size(u as int));
    let mut out: Vec<u8> = Vec::new();
    proof {
        lemma_pow128_values();
    }
    if n <= 8 {
        proof {
            vstd::arithmetic::div_mod::lemma_multiply_divide_lt(u as int, 128, pow128((n - 1) as nat));
        }
        push_cont_digits(u / 128, n - 1, &mut out);
        out.push((u % 128) as u8);
        assert(out@ =~= varint_enc(value));
    } else {
        proof {
            assert(0x100_0000_0000_0000_00 == 256 * pow128(8));
            vstd::arithmetic::div_mod::lemma_multiply_divide_lt(u as int, 256, pow128(8));
        }
        push_cont_digits(u / 256, 8, &mut out);
        out.push((u % 256) as u8);
        assert(out@ =~= varint_enc(value));
    }
    proof {
        lemma_enc_cont_shape((u / 128) as int, n - 1);
        lemma_enc_cont_shape((u / 256) as int, 8);
    }
    out
}

/// Varint round-trip: decoding the encoding of any signed 64-bit value
/// yields the value back, with the encoding's full length consumed and at
/// most 9 bytes long.
pub proof fn lemma_varint_round_trip(v: i64)
    ensures
        1 <= varint_enc(v).len() <= 9,
        varint_complete(varint_enc(v), 0),
        varint_len(varint_enc(v), 0) == varint_enc(v).len(),
        varint_value(varint_enc(v), 0) == v,
{
    let u = u64_of_i64(v);
    let n = varint_size(u);
    let e = varint_enc(v);
    lemma_pow128_values();
    if n <= 8 {
        let h = u / 128;
        lemma_enc_cont_shape(h, n - 1);
        assert(e.len() == n);
        vstd::arithmetic::div_mod::lemma_multiply_divide_lt(u, 128, pow128((n - 1) as nat));
        assert forall|j: int| 0 <= j < n - 1 implies #[trigger] e[j] >= 128 by {
            assert(e[j] == enc_cont(h, n - 1)[j]);
        }
        lemma_varint_len_skip(e, 0, n - 1);
        assert(e[n - 1] == (u % 128) as u8);
        vstd::arithmetic::div_mod::lemma_mod_division_less_than_divisor(u, 128);
        assert(varint_len(e, 0) == n);
        lemma_acc_of_enc(e, 0, h, n - 1);
        vstd::arithmetic::div_mod::lemma_fundamental_div_mod(u, 128);
        assert(varint_raw(e, 0) == u);
        assert(u < 0x8000_0000_0000_0000);
        assert(v >= 0) by {
            if v < 0 {
                assert(u >= 0x8000_0000_0000_0000);
            }
        }
        assert(varint_value(e, 0) == v);
    } else {
        let h = u / 256;
        lemma_enc_cont_shape(h, 8);
        assert(e.len() == 9);
        assert(0x100_0000_0000_0000_00 == 256 * pow128(8));
        vstd::arithmetic::div_mod::lemma_multiply_divide_lt(u, 256, pow128(8));
        assert forall|j: int| 0 <= j < 8 implies #[trigger] e[j] >= 128 by {
            assert(e[j] == enc_cont(h, 8)[j]);
        }
        lemma_varint_len_skip(e, 0, 8);
        assert(varint_len(e, 0) == 9);
        lemma_acc_of_enc(e, 0, h, 8);
        vstd::arithmetic::div_mod::lemma_fundamental_div_mod(u, 256);
        assert(varint_raw(e, 0) == u);
        if u < 0x8000_0000_0000_0000 {
            assert(v >= 0) by {
                if v < 0 {
                    assert(u >= 0x8000_0000_0000_0000);
                }
            }
            assert(varint_value(e, 0) == v);
        } else {
            assert(v < 0) by {
                if v >= 0 {
                    assert(u == v);
                }
            }
            assert(varint_value(e, 0) == v);
        }
    }
}

} // verus!
