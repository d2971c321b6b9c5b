//! The SQLite record format: a varint header length, serial-type codes that
//! exactly fill the header, then tightly packed big-endian field bodies.

use vstd::prelude::*;

use crate::error::{DbError, ErrorKind};
use crate::{read_varint_at, varint_complete, varint_len, varint_ok_within, varint_value};

verus! {

/// The kind of one record field, decoded from its serial-type code.
#[derive(Debug, Copy, Clone, PartialEq, Eq, Structural)]
pub enum RecordFieldType {
    Null,
    I8,
    I16,
    I24,
    I32,
    I48,
    I64,
    Float,
    Zero,
    One,
    String(usize),
    Blob(usize),
}

/// One field of a record: where its body starts in the payload, and its kind.
#[derive(Debug, Copy, Clone, PartialEq, Eq, Structural)]
pub struct RecordField {
    pub offset: usize,
    pub field_type: RecordFieldType,
}

/// The decoded record header: one entry per field, in on-disk order.
#[derive(Debug, Clone, PartialEq)]
pub struct RecordHeader {
    pub fields: Vec<RecordField>,
}

/// The field kind and body size that a serial-type code denotes, or nothing
/// for the reserved codes 10 and 11 and for negative codes.
pub open spec fn serial_lookup(code: int) -> Option<(RecordFieldType, int)> {
    if code == 0 {
        Some((RecordFieldType::Null, 0))
    } else if code == 1 {
        Some((RecordFieldType::I8, 1))
    } else if code == 2 {
        Some((RecordFieldType::I16, 2))
    } else if code == 3 {
        Some((RecordFieldType::I24, 3))
    } else if code == 4 {
        Some((RecordFieldType::I32, 4))
    } else if code == 5 {
        Some((RecordFieldType::I48, 6))
    } else if code == 6 {
        Some((RecordFieldType::I64, 8))
    } else if code == 7 {
        Some((RecordFieldType::Float, 8))
    } else if code == 8 {
        Some((RecordFieldType::Zero, 0))
    } else if code == 9 {
        Some((RecordFieldType::One, 0))
    } else if code >= 12 && code % 2 == 0 {
        Some((RecordFieldType::Blob(((code - 12) / 2) as usize), (code - 12) / 2))
    } else if code >= 13 && code % 2 == 1 {
        Some((RecordFieldType::String(((code - 13) / 2) as usize), (code - 13) / 2))
    } else {
        None
    }
}

/// The number of payload bytes a field of the given kind occupies.
pub open spec fn field_body_size(ft: RecordFieldType) -> int {
    match ft {
        RecordFieldType::Null => 0,
        RecordFieldType::I8 => 1,
        RecordFieldType::I16 => 2,
        RecordFieldType::I24 => 3,
        RecordFieldType::I32 => 4,
        RecordFieldType::I48 => 6,
        RecordFieldType::I64 => 8,
        RecordFieldType::Float => 8,
        RecordFieldType::Zero => 0,
        RecordFieldType::One => 0,
        RecordFieldType::String(n) => n as int,
        RecordFieldType::Blob(n) => n as int,
    }
}

/// The fields declared by the serial-type codes in `s[pos..end]`, with the
/// first body at `off`: each code consumes one varint and one body-sized
/// span of the payload.
pub open spec fn record_fields(s: Seq<u8>, pos: int, end: int, off: int) -> Result<
    Seq<RecordField>,
    ErrorKind,
>
    decreases end - pos,
    via record_fields_decreases
{
    if pos >= end {
        Ok(Seq::empty())
    } else if !(pos + varint_len(s, pos) <= end) {
        Err(ErrorKind::Bounds)
    } else {
        match serial_lookup(varint_value(s, pos) as int) {
            None => Err(ErrorKind::Format),
            Some((ft, size)) => {
                if off + size > usize::MAX {
                    Err(ErrorKind::Bounds)
                } else {
                    match record_fields(s, pos + varint_len(s, pos), end, off + size) {
                        Ok(rest) => Ok(
                            seq![RecordField { offset: off as usize, field_type: ft }] + rest,
                        ),
                        Err(k) => Err(k),
                    }
                }
            },
        }
    }
}

#[via_fn]
proof fn record_fields_decreases(s: Seq<u8>, pos: int, end: int, off: int) {
    if pos < end {
        crate::lemma_varint_len_at_least_one(s, pos);
    }
}

/// What parsing a record payload's header yields: the field list, or the
/// kind of error. The header-length varint counts the serial-type bytes
/// that follow it; the serial codes must exactly fill the declared header;
/// bodies start where the header ends.
pub open spec fn record_header_parse(s: Seq<u8>) -> Result<Seq<RecordField>, ErrorKind> {
    if !(varint_len(s, 0) <= s.len()) {
        Err(ErrorKind::Bounds)
    } else {
        let n0 = varint_len(s, 0);
        let hl = varint_value(s, 0) as int;
        if hl < 0 || n0 + hl > s.len() {
            Err(ErrorKind::Bounds)
        } else {
            record_fields(s, n0, n0 + hl, n0 + hl)
        }
    }
}

/// A serial-type code's declared body size agrees with the size its field
/// kind occupies, whenever the field can be addressed at all.
proof fn lemma_serial_size_agrees(code: int, ft: RecordFieldType, size: int)
    requires
        serial_lookup(code) == Some((ft, size)),
        size <= usize::MAX,
    ensures
        field_body_size(ft) == size,
{
}

proof fn lemma_record_fields_chain(s: Seq<u8>, pos: int, end: int, off: int)
    requires
        0 <= off,
        record_fields(s, pos, end, off) is Ok,
    ensures
        ({
            let fs = record_fields(s, pos, end, off)->Ok_0;
            &&& (fs.len() > 0 ==> fs[0].offset == off)
            &&& forall|i: int|
                0 <= i < fs.len() - 1 ==> (#[trigger] fs[i + 1].offset) == fs[i].offset
                    + field_body_size(fs[i].field_type)
        }),
    decreases end - pos,
{
    if pos >= end {
    } else {
        let code = varint_value(s, pos) as int;
        let (ft, size) = serial_lookup(code)->Some_0;
        assert(size >= 0);
        lemma_serial_size_agrees(code, ft, size);
        let pos2 = pos + varint_len(s, pos);
        let off2 = off + size;
        crate::lemma_varint_len_at_least_one(s, pos);
        lemma_record_fields_chain(s, pos2, end, off2);
        let fs = record_fields(s, pos, end, off)->Ok_0;
        let rest = record_fields(s, pos2, end, off2)->Ok_0;
        assert(fs == seq![RecordField { offset: off as usize, field_type: ft }] + rest);
        assert forall|i: int| 0 <= i < fs.len() - 1 implies (#[trigger] fs[i + 1].offset)
            == fs[i].offset + field_body_size(fs[i].field_type) by {
            if i == 0 {
                if rest.len() > 0 {
                    assert(fs[1] == rest[0]);
                    assert(rest[0].offset == off2);
                }
            } else {
                assert(fs[i] == rest[i - 1]);
                assert(fs[i + 1] == rest[i]);
                assert(rest[(i - 1) + 1].offset == rest[i - 1].offset + field_body_size(
                    rest[i - 1].field_type,
                ));
            }
        }
    }
}

/// Record decoding invariant: in a record that parses, field bodies tile the
/// payload contiguously. The first body starts where the declared header
/// ends, and each later body starts exactly where the previous one ends, so
/// reading fields `0..n` in order traverses the concatenation of the encoded
/// bodies.
pub proof fn lemma_record_fields_contiguous(s: Seq<u8>)
    requires
        record_header_parse(s) is Ok,
    ensures
        ({
            let fs = record_header_parse(s)->Ok_0;
            &&& (fs.len() > 0 ==> fs[0].offset == varint_len(s, 0) + varint_value(s, 0) as int)
            &&& forall|i: int|
                0 <= i < fs.len() - 1 ==> (#[trigger] fs[i + 1].offset) == fs[i].offset
                    + field_body_size(fs[i].field_type)
        }),
{
    let n0 = varint_len(s, 0);
    let hl = varint_value(s, 0) as int;
    crate::lemma_varint_len_at_least_one(s, 0);
    lemma_record_fields_chain(s, n0, n0 + hl, n0 + hl);
}

/// Parse the record header at the start of a cell payload.
///
/// Reads the header-length varint, then serial-type varints until the
/// declared header is exhausted; each field is assigned the offset where its
/// body starts, bodies being tightly packed right after the header.
pub fn parse_record_header(cell_buff: &[u8]) -> (r: Result<RecordHeader, DbError>)
    ensures
        match r {
            Ok(h) => record_header_parse(cell_buff@) == Ok::<Seq<RecordField>, ErrorKind>(
                h.fields@,
            ),
            Err(e) => {
                &&& record_header_parse(cell_buff@) == Err::<Seq<RecordField>, ErrorKind>(e.kind)
                &&& (e.kind == ErrorKind::Format ==> e.message@ == "unsupported field type"@)
            },
        },
{
    let ghost s = cell_buff@;
    let len = cell_buff.len();
    if !varint_ok_within(cell_buff, 0, len) {
        return Err(DbError::new(ErrorKind::Bounds, "record header length out of bounds"));
    }
    let (n0, hl_raw) = read_varint_at(cell_buff, 0);
    if hl_raw < 0 {
        return Err(DbError::new(ErrorKind::Bounds, "record header length out of bounds"));
    }
    if hl_raw as u64 > (len - n0 as usize) as u64 {
        return Err(DbError::new(ErrorKind::Bounds, "record header length out of bounds"));
    }
    let hl = n0 as usize + hl_raw as u64 as usize;

    let mut fields: Vec<RecordField> = Vec::new();
    let mut pos: usize = n0 as usize;
    let mut cur: usize = hl;

    loop
        invariant
            s == cell_buff@,
            len == s.len(),
            pos <= hl <= len,
            record_header_parse(s) == (match record_fields(s, pos as int, hl as int, cur as int) {
                Ok(rest) => Ok::<Seq<RecordField>, ErrorKind>(fields@ + rest),
                Err(k) => Err::<Seq<RecordField>, ErrorKind>(k),
            }),
        decreases hl - pos,
    {
        if pos >= hl {
            assert(record_fields(s, pos as int, hl as int, cur as int) == Ok::<
                Seq<RecordField>,
                ErrorKind,
            >(Seq::empty()));
            assert(fields@ + Seq::<RecordField>::empty() =~= fields@);
            return Ok(RecordHeader { fields });
        }
        if !varint_ok_within(cell_buff, pos, hl) {
            return Err(DbError::new(ErrorKind::Bounds, "record header overruns its length"));
        }
        let (n, code) = read_varint_at(cell_buff, pos);
        let ft: RecordFieldType;
        let size: u64;
        if code == 0 {
            ft = RecordFieldType::Null;
            size = 0;
        } else if code == 1 {
            ft = RecordFieldType::I8;
            size = 1;
        } else if code == 2 {
            ft = RecordFieldType::I16;
            size = 2;
        } else if code == 3 {
            ft = RecordFieldType::I24;
            size = 3;
        } else if code == 4 {
            ft = RecordFieldType::I32;
            size = 4;
        } else if code == 5 {
            ft = RecordFieldType::I48;
            size = 6;
        } else if code == 6 {
            ft = RecordFieldType::I64;
            size = 8;
        } else if code == 7 {
            ft = RecordFieldType::Float;
            size = 8;
        } else if code == 8 {
            ft = RecordFieldType::Zero;
            size = 0;
        } else if code == 9 {
            ft = RecordFieldType::One;
            size = 0;
        } else if code >= 12 && code % 2 == 0 {
            size = ((code - 12) / 2) as u64;
            if size > (usize::MAX - cur) as u64 {
                return Err(DbError::new(ErrorKind::Bounds, "record field offsets overflow"));
            }
            ft = RecordFieldType::Blob(size as usize);
        } else if code >= 13 && code % 2 == 1 {
            size = ((code - 13) / 2) as u64;
            if size > (usize::MAX - cur) as u64 {
                return Err(DbError::new(ErrorKind::Bounds, "record field offsets overflow"));
            }
            ft = RecordFieldType::String(size as usize);
        } else {
            return Err(DbError::new(ErrorKind::Format, "unsupported field type"));
        }
        if size > (usize::MAX - cur) as u64 {
            return Err(DbError::new(ErrorKind::Bounds, "record field offsets overflow"));
        }
        let f = RecordField { offset: cur, field_type: ft };
        let ghost prev = fields@;
        let ghost opos = pos as int;
        let ghost ocur = cur as int;
        fields.push(f);
        pos = pos + n as usize;
        cur = cur + size as usize;
        proof {
            assert(varint_len(s, opos) == n);
            assert(serial_lookup(varint_value(s, opos) as int) == Some((ft, size as int)));
            assert(record_fields(s, opos, hl as int, ocur) == (match record_fields(
                s,
                pos as int,
                hl as int,
                cur as int,
            ) {
                Ok(rest) => Ok::<Seq<RecordField>, ErrorKind>(seq![f] + rest),
                Err(k) => Err::<Seq<RecordField>, ErrorKind>(k),
            }));
            match record_fields(s, pos as int, hl as int, cur as int) {
                Ok(rest) => {
                    assert(fields@ + rest =~= prev + (seq![f] + rest));
                },
                Err(_) => {},
            }
        }
    }
}

} // verus!
