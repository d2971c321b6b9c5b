//! The 100-byte database file header: validation and field extraction, plus
//! a formatter that emits a header back to bytes.

use vstd::prelude::*;

use crate::error::{DbError, ErrorKind};
use crate::{be_uint, pow256, read_be_byte_at, read_be_double_at, read_be_word_at};

verus! {

/// The decoded database header.
#[derive(Debug, Copy, Clone, PartialEq, Eq, Structural)]
pub struct DbHeader {
    pub page_size: u32,
    pub file_format_w: u8,
    pub file_format_r: u8,
    pub max_embedded_payload: u8,
    pub min_embedded_payload: u8,
    pub leaf_payload_fraction: u8,
    pub file_change_counter: u32,
    pub db_size: u32,
    pub schema_cookie: u32,
    pub sq_version: u32,
}

pub const HEADER_PAGE_SIZE_OFFSET: usize = 16;
pub const FILE_FORMAT_W_OFFSET: usize = 18;
pub const FILE_FORMAT_R_OFFSET: usize = 19;
pub const MAX_EMBEDDED_PAYLOAD_OFFSET: usize = 21;
pub const MIN_EMBEDDED_PAYLOAD_OFFSET: usize = 22;
pub const LEAF_PAYLOAD_FRACTION_OFFSET: usize = 23;
pub const FILE_CHANGE_COUNTER_OFFSET: usize = 24;
pub const DB_SIZE_OFFSET: usize = 28;
pub const SCHEMA_COOKIE_OFFSET: usize = 32;
pub const SQ_VERSION_OFFSET: usize = 96;
pub const PAGE_MAX_SIZE: u32 = 65536;
pub const HEADER_SIZE: usize = 100;

/// The 16 magic bytes `SQLite format 3\0`.
pub open spec fn magic_seq() -> Seq<u8> {
    seq![83u8, 81, 76, 105, 116, 101, 32, 102, 111, 114, 109, 97, 116, 32, 51, 0]
}

/// The buffer begins with the magic bytes.
pub open spec fn magic_ok(s: Seq<u8>) -> bool {
    s.len() >= 16 && (forall|i: int| 0 <= i < 16 ==> s[i] == #[trigger] magic_seq()[i])
}

/// The raw 2-byte page-size field is acceptable: 1 denotes 65536, otherwise
/// a power of two between 512 and 32768.
pub open spec fn page_size_raw_ok(raw: int) -> bool {
    ||| raw == 1
    ||| raw == 512
    ||| raw == 1024
    ||| raw == 2048
    ||| raw == 4096
    ||| raw == 8192
    ||| raw == 16384
    ||| raw == 32768
}

/// The page size that a raw 2-byte field denotes.
pub open spec fn page_size_of_raw(raw: int) -> int {
    if raw == 1 {
        65536
    } else {
        raw
    }
}

/// The header a valid 100-byte buffer decodes to.
pub open spec fn header_of(s: Seq<u8>) -> DbHeader {
    DbHeader {
        page_size: page_size_of_raw(be_uint(s, 16, 2)) as u32,
        file_format_w: s[18],
        file_format_r: s[19],
        max_embedded_payload: s[21],
        min_embedded_payload: s[22],
        leaf_payload_fraction: s[23],
        file_change_counter: be_uint(s, 24, 4) as u32,
        db_size: be_uint(s, 28, 4) as u32,
        schema_cookie: be_uint(s, 32, 4) as u32,
        sq_version: be_uint(s, 96, 4) as u32,
    }
}

/// What parsing a 100-byte header buffer yields: the decoded header, or
/// nothing when the magic or the page size is unacceptable.
pub open spec fn header_parse(s: Seq<u8>) -> Option<DbHeader> {
    if magic_ok(s) && page_size_raw_ok(be_uint(s, 16, 2)) {
        Some(header_of(s))
    } else {
        None
    }
}

/// Check the 16 magic bytes at the start of `buffer`.
fn check_magic(buffer: &[u8]) -> (r: bool)
    requires
        buffer@.len() >= 16,
    ensures
        r == magic_ok(buffer@),
{
    let magic: [u8; 16] = [83, 81, 76, 105, 116, 101, 32, 102, 111, 114, 109, 97, 116, 32, 51, 0];
    assert(forall|i: int| 0 <= i < 16 ==> magic@[i] == #[trigger] magic_seq()[i]);
    let mut i: usize = 0;
    while i < 16
        invariant
            i <= 16,
            buffer@.len() >= 16,
            forall|i: int| 0 <= i < 16 ==> magic@[i] == #[trigger] magic_seq()[i],
            forall|j: int| 0 <= j < i ==> buffer@[j] == #[trigger] magic_seq()[j],
        decreases 16 - i,
    {
        if buffer[i] != magic[i] {
            assert(buffer@[i as int] != magic_seq()[i as int]);
            return false;
        }
        i = i + 1;
    }
    true
}

/// Parse the 100-byte database header.
///
/// The buffer must begin with the magic string `SQLite format 3\0`, followed
/// by the page size as a big-endian 2-byte integer at offset 16: the stored
/// value 1 denotes 65536, anything else must be a power of two between 512
/// and 32768. The remaining fields are decoded and carried but not
/// interpreted.
pub fn parse_header(buffer: &[u8]) -> (r: Result<DbHeader, DbError>)
    requires
        buffer@.len() >= HEADER_SIZE,
    ensures
        match r {
            Ok(h) => header_parse(buffer@) == Some(h),
            Err(e) => {
                &&& header_parse(buffer@) is None
                &&& e.kind == ErrorKind::Format
                &&& (!magic_ok(buffer@) ==> e.message@ == "Invalid header prefix"@)
                &&& (magic_ok(buffer@) ==> e.message@ == "page size is not a power of 2"@)
            },
        },
{
    if !check_magic(buffer) {
        return Err(DbError::new(ErrorKind::Format, "Invalid header prefix"));
    }

    let page_size_raw = read_be_word_at(buffer, HEADER_PAGE_SIZE_OFFSET);
    let page_size: u32 = if page_size_raw == 1 {
        PAGE_MAX_SIZE
    } else if page_size_raw == 512 || page_size_raw == 1024 || page_size_raw == 2048
        || page_size_raw == 4096 || page_size_raw == 8192 || page_size_raw == 16384
        || page_size_raw == 32768 {
        page_size_raw as u32
    } else {
        return Err(DbError::new(ErrorKind::Format, "page size is not a power of 2"));
    };

    let file_format_w = read_be_byte_at(buffer, FILE_FORMAT_W_OFFSET);
    let file_format_r = read_be_byte_at(buffer, FILE_FORMAT_R_OFFSET);
    let max_embedded_payload = read_be_byte_at(buffer, MAX_EMBEDDED_PAYLOAD_OFFSET);
    let min_embedded_payload = read_be_byte_at(buffer, MIN_EMBEDDED_PAYLOAD_OFFSET);
    let leaf_payload_fraction = read_be_byte_at(buffer, LEAF_PAYLOAD_FRACTION_OFFSET);
    let file_change_counter = read_be_double_at(buffer, FILE_CHANGE_COUNTER_OFFSET);
    let db_size = read_be_double_at(buffer, DB_SIZE_OFFSET);
    let schema_cookie = read_be_double_at(buffer, SCHEMA_COOKIE_OFFSET);
    let sq_version = read_be_double_at(buffer, SQ_VERSION_OFFSET);

    Ok(DbHeader {
        page_size,
        file_format_r,
        file_format_w,
        max_embedded_payload,
        min_embedded_payload,
        leaf_payload_fraction,
        file_change_counter,
        db_size,
        schema_cookie,
        sq_version,
    })
}

/// The header's fields all lie in the ranges the format can store; in
/// particular the page size is one a header can denote.
pub open spec fn header_valid(h: DbHeader) -> bool {
    ||| h.page_size == 512
    ||| h.page_size == 1024
    ||| h.page_size == 2048
    ||| h.page_size == 4096
    ||| h.page_size == 8192
    ||| h.page_size == 16384
    ||| h.page_size == 32768
    ||| h.page_size == 65536
}

/// Powers of 256 are positive.
proof fn lemma_pow256_pos(n: nat)
    ensures
        pow256(n) >= 1,
    decreases n,
{
    if n > 0 {
        lemma_pow256_pos((n - 1) as nat);
    }
}

/// Digits of a big-endian read: if every byte at `off + j` is the `j`-th
/// base-256 digit of `v` (most significant first), the read yields `v`.
proof fn lemma_be_uint_digits(s: Seq<u8>, off: int, v: int, n: int)
    requires
        0 <= n,
        0 <= v < pow256(n as nat),
        forall|j: int| 0 <= j < n ==> #[trigger] s[off + j] == (v / pow256((n - 1 - j) as nat))
            % 256,
    ensures
        be_uint(s, off, n) == v,
    decreases n,
{
    if n > 0 {
        let v1 = v / 256;
        assert(pow256(n as nat) == 256 * pow256((n - 1) as nat));
        vstd::arithmetic::div_mod::lemma_multiply_divide_lt(v, 256, pow256((n - 1) as nat));
        assert forall|j: int| 0 <= j < n - 1 implies #[trigger] s[off + j] == (v1 / pow256(
            (n - 2 - j) as nat,
        )) % 256 by {
            assert(s[off + j] == (v / pow256((n - 1 - j) as nat)) % 256);
            assert(pow256((n - 1 - j) as nat) == 256 * pow256((n - 2 - j) as nat));
            lemma_pow256_pos((n - 2 - j) as nat);
            vstd::arithmetic::div_mod::lemma_div_denominator(v, 256, pow256((n - 2 - j) as nat));
        }
        lemma_be_uint_digits(s, off, v1, n - 1);
        assert(s[off + n - 1] == (v / pow256(0)) % 256);
        assert(pow256(0) == 1);
        vstd::arithmetic::div_mod::lemma_fundamental_div_mod(v, 256);
    }
}

/// Append the 16 magic bytes.
fn push_magic(out: &mut Vec<u8>)
    ensures
        final(out)@.len() == old(out)@.len() + 16,
        forall|j: int| 0 <= j < old(out)@.len() ==> final(out)@[j] == old(out)@[j],
        forall|j: int| 0 <= j < 16 ==> final(out)@[old(out)@.len() + j] == #[trigger] magic_seq()[j],
{
    let magic: [u8; 16] = [83, 81, 76, 105, 116, 101, 32, 102, 111, 114, 109, 97, 116, 32, 51, 0];
    assert(forall|i: int| 0 <= i < 16 ==> magic@[i] == #[trigger] magic_seq()[i]);
    let mut i: usize = 0;
    while i < 16
        invariant
            i <= 16,
            forall|i: int| 0 <= i < 16 ==> magic@[i] == #[trigger] magic_seq()[i],
            out@.len() == old(out)@.len() + i,
            forall|j: int| 0 <= j < old(out)@.len() ==> out@[j] == old(out)@[j],
            forall|j: int| 0 <= j < i ==> out@[old(out)@.len() + j] == #[trigger] magic_seq()[j],
        decreases 16 - i,
    {
        out.push(magic[i]);
        i = i + 1;
    }
}

/// Append `v` as 2 big-endian bytes.
fn push_be_word(out: &mut Vec<u8>, v: u16)
    ensures
        final(out)@.len() == old(out)@.len() + 2,
        forall|j: int| 0 <= j < old(out)@.len() ==> final(out)@[j] == old(out)@[j],
        final(out)@[old(out)@.len() as int] == v as int / 256,
        final(out)@[old(out)@.len() + 1int] == v as int % 256,
{
    out.push((v / 256) as u8);
    out.push((v % 256) as u8);
}

/// Append `v` as 4 big-endian bytes.
fn push_be_double(out: &mut Vec<u8>, v: u32)
    ensures
        final(out)@.len() == old(out)@.len() + 4,
        forall|j: int| 0 <= j < old(out)@.len() ==> final(out)@[j] == old(out)@[j],
        final(out)@[old(out)@.len() as int] == v as int / 0x100_0000 % 256,
        final(out)@[old(out)@.len() + 1int] == v as int / 0x1_0000 % 256,
        final(out)@[old(out)@.len() + 2int] == v as int / 0x100 % 256,
        final(out)@[old(out)@.len() + 3int] == v as int % 256,
{
    out.push((v / 0x100_0000) as u8);
    out.push((v / 0x1_0000 % 256) as u8);
    out.push((v / 0x100 % 256) as u8);
    out.push((v % 256) as u8);
}

/// Append `k` zero bytes.
fn push_zero_bytes(out: &mut Vec<u8>, k: usize)
    ensures
        final(out)@.len() == old(out)@.len() + k,
        forall|j: int| 0 <= j < old(out)@.len() ==> final(out)@[j] == old(out)@[j],
    decreases k,
{
    let mut i: usize = 0;
    while i < k
        invariant
            i <= k,
            out@.len() == old(out)@.len() + i,
            forall|j: int| 0 <= j < old(out)@.len() ==> out@[j] == old(out)@[j],
        decreases k - i,
    {
        out.push(0);
        i = i + 1;
    }
}

/// Format a valid header as a 100-byte buffer.
///
/// Parsing the formatted buffer yields the header back: this is the header
/// round-trip law, carried by the postcondition together with that of
/// [`parse_header`].
pub fn format_header(h: &DbHeader) -> (r: Vec<u8>)
    requires
        header_valid(*h),
    ensures
        r@.len() == HEADER_SIZE,
        header_parse(r@) == Some(*h),
{
    let ghost hv = *h;
    let raw: u16 = if h.page_size == 65536 {
        1
    } else {
        h.page_size as u16
    };
    let mut out: Vec<u8> = Vec::new();
    push_magic(&mut out);
    push_be_word(&mut out, raw);
    out.push(h.file_format_w);
    out.push(h.file_format_r);
    out.push(0);
    out.push(h.max_embedded_payload);
    out.push(h.min_embedded_payload);
    out.push(h.leaf_payload_fraction);
    push_be_double(&mut out, h.file_change_counter);
    push_be_double(&mut out, h.db_size);
    push_be_double(&mut out, h.schema_cookie);
    push_zero_bytes(&mut out, 60);
    push_be_double(&mut out, h.sq_version);
    proof {
        let s = out@;
        assert(s.len() == 100);
        assert(magic_ok(s));
        reveal_with_fuel(pow256, 5);
        assert(s[16] == raw as int / 256 && s[17] == raw as int % 256);
        assert forall|j: int| 0 <= j < 2 implies #[trigger] s[16 + j] == (raw as int / pow256(
            (1 - j) as nat,
        )) % 256 by {
            vstd::arithmetic::div_mod::lemma_mod_division_less_than_divisor(raw as int, 256);
            if j == 0 {
                vstd::arithmetic::div_mod::lemma_multiply_divide_lt(raw as int, 256, 256);
                vstd::arithmetic::div_mod::lemma_small_mod((raw as int / 256) as nat, 256);
            }
        }
        lemma_be_uint_digits(s, 16, raw as int, 2);
        assert(be_uint(s, 16, 2) == raw);
        assert(page_size_raw_ok(raw as int));
        lemma_format_double(s, 24, h.file_change_counter);
        lemma_format_double(s, 28, h.db_size);
        lemma_format_double(s, 32, h.schema_cookie);
        lemma_format_double(s, 96, h.sq_version);
        assert(page_size_of_raw(be_uint(s, 16, 2)) == h.page_size);
        assert(header_of(s) == hv);
        assert(header_parse(s) == Some(hv));
    }
    out
}

/// The 4 bytes at `off` hold the base-256 digits of `v`, so the big-endian
/// read there yields `v`.
proof fn lemma_format_double(s: Seq<u8>, off: int, v: u32)
    requires
        s[off] == v as int / 0x100_0000 % 256,
        s[off + 1] == v as int / 0x1_0000 % 256,
        s[off + 2] == v as int / 0x100 % 256,
        s[off + 3] == v as int % 256,
    ensures
        be_uint(s, off, 4) == v,
{
    reveal_with_fuel(pow256, 5);
    assert forall|j: int| 0 <= j < 4 implies #[trigger] s[off + j] == (v as int / pow256(
        (3 - j) as nat,
    )) % 256 by {
        assert(pow256(3) == 0x100_0000 && pow256(2) == 0x1_0000 && pow256(1) == 0x100 && pow256(0)
            == 1);
    }
    lemma_be_uint_digits(s, off, v as int, 4);
}

} // verus!
