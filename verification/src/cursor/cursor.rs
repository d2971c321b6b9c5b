//! A cursor over one decoded record: typed access to its fields.

use vstd::prelude::*;
use vstd::utf8::{decode_utf8, encode_utf8, encode_utf8_decode_utf8, valid_utf8};

use super::record::{RecordField, RecordFieldType, RecordHeader};
use super::value::{Value, ValueView};
use crate::error::{DbError, ErrorKind};
use crate::{be_uint, lemma_be_uint_bound, lemma_pow256_values, pow256, read_be_uint_at, signed_of};

verus! {

/// A handle to a single decoded record: its header and its payload bytes.
#[derive(Debug, Clone, PartialEq)]
pub struct Cursor {
    pub header: RecordHeader,
    pub payload: Vec<u8>,
}

/// The value of one field against a payload, or nothing when the field's
/// body does not lie inside the payload (or a text body is not valid UTF-8).
pub open spec fn field_value(p: Seq<u8>, f: RecordField) -> Option<ValueView> {
    let off = f.offset as int;
    match f.field_type {
        RecordFieldType::Null => Some(ValueView::Null),
        RecordFieldType::I8 => if off + 1 <= p.len() {
            Some(ValueView::Int(signed_of(p[off] as int, 1)))
        } else {
            None
        },
        RecordFieldType::I16 => if off + 2 <= p.len() {
            Some(ValueView::Int(signed_of(be_uint(p, off, 2), 2)))
        } else {
            None
        },
        RecordFieldType::I24 => if off + 3 <= p.len() {
            Some(ValueView::Int(signed_of(be_uint(p, off, 3), 3)))
        } else {
            None
        },
        RecordFieldType::I32 => if off + 4 <= p.len() {
            Some(ValueView::Int(signed_of(be_uint(p, off, 4), 4)))
        } else {
            None
        },
        RecordFieldType::I48 => if off + 6 <= p.len() {
            Some(ValueView::Int(signed_of(be_uint(p, off, 6), 6)))
        } else {
            None
        },
        RecordFieldType::I64 => if off + 8 <= p.len() {
            Some(ValueView::Int(signed_of(be_uint(p, off, 8), 8)))
        } else {
            None
        },
        RecordFieldType::Float => if off + 8 <= p.len() {
            Some(ValueView::Float(be_uint(p, off, 8) as u64))
        } else {
            None
        },
        RecordFieldType::Zero => Some(ValueView::Int(0)),
        RecordFieldType::One => Some(ValueView::Int(1)),
        RecordFieldType::String(l) => if off + l <= p.len() {
            if valid_utf8(p.subrange(off, off + l)) {
                Some(ValueView::Text(decode_utf8(p.subrange(off, off + l))))
            } else {
                None
            }
        } else {
            None
        },
        RecordFieldType::Blob(l) => if off + l <= p.len() {
            Some(ValueView::Bytes(p.subrange(off, off + l)))
        } else {
            None
        },
    }
}

/// The error kind a field without a value reports: a text body that lies
/// inside the payload but is not valid UTF-8 is malformed data (`Format`);
/// any body that runs past the payload is `Bounds`.
pub open spec fn field_none_kind(p: Seq<u8>, f: RecordField) -> ErrorKind {
    match f.field_type {
        RecordFieldType::String(l) => if f.offset + l <= p.len() {
            ErrorKind::Format
        } else {
            ErrorKind::Bounds
        },
        _ => ErrorKind::Bounds,
    }
}

/// Decode the bytes as UTF-8 text.
///
/// Relies on `str::from_utf8`, which accepts exactly the valid UTF-8 byte
/// sequences and views the accepted bytes unchanged.
#[verifier::external_body]
fn utf8_to_string(bytes: &[u8]) -> (r: Option<String>)
    ensures
        match r {
            Some(s) => valid_utf8(bytes@) && encode_utf8(s@) == bytes@,
            None => !valid_utf8(bytes@),
        },
{
    match core::str::from_utf8(bytes) {
        Ok(s) => Some(s.to_owned()),
        Err(_) => None,
    }
}

/// Read the byte at `offset` as a signed integer.
pub fn read_i8_at(input: &[u8], offset: usize) -> (r: i64)
    requires
        offset < input@.len(),
    ensures
        r == signed_of(input@[offset as int] as int, 1),
{
    proof {
        lemma_pow256_values();
    }
    let b = input[offset];
    if b >= 0x80 {
        b as i64 - 0x100
    } else {
        b as i64
    }
}

/// Read 2 bytes at `offset` as a signed big-endian integer.
pub fn read_i16_at(input: &[u8], offset: usize) -> (r: i64)
    requires
        offset + 2 <= input@.len(),
    ensures
        r == signed_of(be_uint(input@, offset as int, 2), 2),
{
    proof {
        lemma_pow256_values();
        lemma_be_uint_bound(input@, offset as int, 2);
    }
    let u = read_be_uint_at(input, offset, 2);
    if u >= 0x8000 {
        u as i64 - 0x1_0000
    } else {
        u as i64
    }
}

/// Read 3 bytes at `offset` as a signed big-endian integer.
pub fn read_i24_at(input: &[u8], offset: usize) -> (r: i64)
    requires
        offset + 3 <= input@.len(),
    ensures
        r == signed_of(be_uint(input@, offset as int, 3), 3),
{
    proof {
        lemma_pow256_values();
        lemma_be_uint_bound(input@, offset as int, 3);
    }
    let u = read_be_uint_at(input, offset, 3);
    if u >= 0x80_0000 {
        u as i64 - 0x100_0000
    } else {
        u as i64
    }
}

/// Read 4 bytes at `offset` as a signed big-endian integer.
pub fn read_i32_at(input: &[u8], offset: usize) -> (r: i64)
    requires
        offset + 4 <= input@.len(),
    ensures
        r == signed_of(be_uint(input@, offset as int, 4), 4),
{
    proof {
        lemma_pow256_values();
        lemma_be_uint_bound(input@, offset as int, 4);
    }
    let u = read_be_uint_at(input, offset, 4);
    if u >= 0x8000_0000 {
        u as i64 - 0x1_0000_0000
    } else {
        u as i64
    }
}

/// Read 6 bytes at `offset` as a signed big-endian integer.
pub fn read_i48_at(input: &[u8], offset: usize) -> (r: i64)
    requires
        offset + 6 <= input@.len(),
    ensures
        r == signed_of(be_uint(input@, offset as int, 6), 6),
{
    proof {
        lemma_pow256_values();
        lemma_be_uint_bound(input@, offset as int, 6);
    }
    let u = read_be_uint_at(input, offset, 6);
    if u >= 0x8000_0000_0000 {
        u as i64 - 0x1_0000_0000_0000
    } else {
        u as i64
    }
}

/// Read 8 bytes at `offset` as a signed big-endian integer.
pub fn read_i64_at(input: &[u8], offset: usize) -> (r: i64)
    requires
        offset + 8 <= input@.len(),
    ensures
        r == signed_of(be_uint(input@, offset as int, 8), 8),
{
    proof {
        lemma_pow256_values();
        lemma_be_uint_bound(input@, offset as int, 8);
    }
    let u = read_be_uint_at(input, offset, 8);
    if u >= 0x8000_0000_0000_0000 {
        ((u - 0x8000_0000_0000_0000) as i64 - 0x7FFF_FFFF_FFFF_FFFF) - 1
    } else {
        u as i64
    }
}

impl Cursor {
    /// The value of field `n`, borrowed conceptually from this record:
    /// `None` when `n` is out of range, when the field's body lies outside
    /// the payload, or when a text body is not valid UTF-8.
    pub fn field(&self, n: usize) -> (r: Option<Value>)
        ensures
            n >= self.header.fields@.len() ==> r is None,
            n < self.header.fields@.len() ==> match r {
                Some(v) => field_value(self.payload@, self.header.fields@[n as int]) == Some(v@),
                None => field_value(self.payload@, self.header.fields@[n as int]) is None,
            },
    {
        if n >= self.header.fields.len() {
            return None;
        }
        let record_field = self.header.fields[n];
        let off = record_field.offset;
        let plen = self.payload.len();
        let p = self.payload.as_slice();

        match record_field.field_type {
            RecordFieldType::Null => Some(Value::Null),
            RecordFieldType::I8 => {
                if off < plen {
                    Some(Value::Int(read_i8_at(p, off)))
                } else {
                    None
                }
            },
            RecordFieldType::I16 => {
                if off <= usize::MAX - 2 && off + 2 <= plen {
                    Some(Value::Int(read_i16_at(p, off)))
                } else {
                    None
                }
            },
            RecordFieldType::I24 => {
                if off <= usize::MAX - 3 && off + 3 <= plen {
                    Some(Value::Int(read_i24_at(p, off)))
                } else {
                    None
                }
            },
            RecordFieldType::I32 => {
                if off <= usize::MAX - 4 && off + 4 <= plen {
                    Some(Value::Int(read_i32_at(p, off)))
                } else {
                    None
                }
            },
            RecordFieldType::I48 => {
                if off <= usize::MAX - 6 && off + 6 <= plen {
                    Some(Value::Int(read_i48_at(p, off)))
                } else {
                    None
                }
            },
            RecordFieldType::I64 => {
                if off <= usize::MAX - 8 && off + 8 <= plen {
                    Some(Value::Int(read_i64_at(p, off)))
                } else {
                    None
                }
            },
            RecordFieldType::Float => {
                if off <= usize::MAX - 8 && off + 8 <= plen {
                    Some(Value::Float(read_be_uint_at(p, off, 8)))
                } else {
                    None
                }
            },
            RecordFieldType::Zero => Some(Value::Int(0)),
            RecordFieldType::One => Some(Value::Int(1)),
            RecordFieldType::String(length) => {
                if length <= usize::MAX - off && off + length <= plen {
                    let body = vstd::slice::slice_subrange(p, off, off + length);
                    match utf8_to_string(body) {
                        Some(s) => {
                            proof {
                                encode_utf8_decode_utf8(s@);
                            }
                            Some(Value::String(s))
                        },
                        None => None,
                    }
                } else {
                    None
                }
            },
            RecordFieldType::Blob(length) => {
                if length <= usize::MAX - off && off + length <= plen {
                    let body = vstd::slice::slice_subrange(p, off, off + length);
                    Some(Value::Blob(vstd::slice::slice_to_vec(body)))
                } else {
                    None
                }
            },
        }
    }

    /// The error to report for field `n` when it carries no value.
    pub fn field_error(&self, n: usize) -> (e: DbError)
        requires
            n < self.header.fields@.len(),
        ensures
            e.kind == field_none_kind(self.payload@, self.header.fields@[n as int]),
            e.kind == ErrorKind::Format ==> e.message@ == "invalid UTF-8 in text field"@,
            e.kind == ErrorKind::Bounds ==> e.message@ == "record field out of payload"@,
    {
        let f = self.header.fields[n];
        let plen = self.payload.len();
        match f.field_type {
            RecordFieldType::String(l) => {
                if l <= usize::MAX - f.offset && f.offset + l <= plen {
                    DbError::new(ErrorKind::Format, "invalid UTF-8 in text field")
                } else {
                    DbError::new(ErrorKind::Bounds, "record field out of payload")
                }
            },
            _ => DbError::new(ErrorKind::Bounds, "record field out of payload"),
        }
    }

    /// The value of field `n`, owning its contents.
    pub fn owned_field(&self, n: usize) -> (r: Option<super::value::OwnedValue>)
        ensures
            n >= self.header.fields@.len() ==> r is None,
            n < self.header.fields@.len() ==> match r {
                Some(v) => field_value(self.payload@, self.header.fields@[n as int]) == Some(v@),
                None => field_value(self.payload@, self.header.fields@[n as int]) is None,
            },
    {
        match self.field(n) {
            Some(v) => Some(v.to_owned_value()),
            None => None,
        }
    }
}

} // verus!
