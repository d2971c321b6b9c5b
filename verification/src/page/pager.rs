//! The page decoder and the pager.
//!
//! The pager holds the database file's bytes and hands out decoded pages.
//! Decoding is a pure function of the file contents, so any two reads of the
//! same page number yield identical pages.

use vstd::prelude::*;

use super::page_utils::{
    Cell, CellView, Page, PageHeader, PageType, PageView, TableInteriorCell, TableLeafCell,
    spec_header_byte_size,
};
use crate::dbheader::HEADER_SIZE;
use crate::error::{DbError, ErrorKind};
use crate::{
    be_uint, clone_bytes, read_be_double_at, read_be_word_at, read_varint_at, varint_len,
    varint_ok_within, varint_value,
};

verus! {

pub const PAGE_FIRST_FREEBLOCK_OFFSET: usize = 1;
pub const PAGE_CELL_COUNT_OFFSET: usize = 3;
pub const PAGE_CELL_CONTENT_OFFSET: usize = 5;
pub const PAGE_FRAGMENTED_BYTES_COUNT_OFFSET: usize = 7;
pub const PAGE_LEAF_HEADER_SIZE: usize = 8;

/// What parsing a table-leaf cell at the start of `s` yields.
pub open spec fn leaf_cell_parse(s: Seq<u8>) -> Result<CellView, ErrorKind> {
    if !(varint_len(s, 0) <= s.len()) {
        Err(ErrorKind::Bounds)
    } else {
        let n1 = varint_len(s, 0);
        let size = varint_value(s, 0) as int;
        if !(n1 + varint_len(s, n1) <= s.len()) {
            Err(ErrorKind::Bounds)
        } else {
            let n2 = varint_len(s, n1);
            let row_id = varint_value(s, n1);
            if size < 0 {
                Err(ErrorKind::Format)
            } else if n1 + n2 + size > s.len() {
                Err(ErrorKind::Unimplemented)
            } else {
                Ok(
                    CellView::TableLeaf {
                        size: size,
                        row_id: row_id,
                        payload: s.subrange(n1 + n2, n1 + n2 + size),
                        overflow_page_num: None,
                    },
                )
            }
        }
    }
}

/// What parsing a table-interior cell at the start of `s` yields.
pub open spec fn interior_cell_parse(s: Seq<u8>) -> Result<CellView, ErrorKind> {
    if s.len() < 4 {
        Err(ErrorKind::Bounds)
    } else if !(4 + varint_len(s, 4) <= s.len()) {
        Err(ErrorKind::Bounds)
    } else {
        Ok(
            CellView::TableInterior {
                left_child_page: be_uint(s, 0, 4) as u32,
                key: varint_value(s, 4),
            },
        )
    }
}

/// What parsing a page header at the start of a page body yields.
pub open spec fn page_header_parse(s: Seq<u8>) -> Result<PageHeader, ErrorKind> {
    if s.len() < 8 {
        Err(ErrorKind::Bounds)
    } else if !(s[0] == 0x0d || s[0] == 0x05 || s[0] == 0x02 || s[0] == 0x0a) {
        Err(ErrorKind::Format)
    } else {
        let page_type = if s[0] == 0x0d {
            PageType::TableLeaf
        } else if s[0] == 0x05 {
            PageType::TableInterior
        } else if s[0] == 0x02 {
            PageType::IndexInterior
        } else {
            PageType::IndexLeaf
        };
        let has_rightmost = s[0] == 0x05 || s[0] == 0x02;
        if has_rightmost && s.len() < 12 {
            Err(ErrorKind::Bounds)
        } else {
            Ok(
                PageHeader {
                    page_type,
                    first_freeblock: be_uint(s, 1, 2) as u16,
                    cell_count: be_uint(s, 3, 2) as u16,
                    cell_content_offset: if be_uint(s, 5, 2) == 0 {
                        65536
                    } else {
                        be_uint(s, 5, 2) as u32
                    },
                    fragmented_bytes_count: s[7],
                    rightmost_pointer: if has_rightmost {
                        Some(be_uint(s, 8, 4) as u32)
                    } else {
                        None
                    },
                },
            )
        }
    }
}

/// The cell pointers read from `s` starting at entry `i` of `n`, each
/// shifted down by `ptr_off` (the page-1 adjustment): pointers below the
/// shift are malformed.
pub open spec fn cell_pointers_from(s: Seq<u8>, i: int, n: int, ptr_off: int) -> Result<
    Seq<u16>,
    ErrorKind,
>
    decreases n - i,
{
    if i >= n {
        Ok(Seq::empty())
    } else if be_uint(s, 2 * i, 2) < ptr_off {
        Err(ErrorKind::Format)
    } else {
        match cell_pointers_from(s, i + 1, n, ptr_off) {
            Ok(rest) => Ok(seq![(be_uint(s, 2 * i, 2) - ptr_off) as u16] + rest),
            Err(k) => Err(k),
        }
    }
}

/// What parsing the cells named by `ptrs` out of a page body yields.
pub open spec fn cells_parse(content: Seq<u8>, ptrs: Seq<u16>, pt: PageType) -> Result<
    Seq<CellView>,
    ErrorKind,
>
    decreases ptrs.len(),
{
    if ptrs.len() == 0 {
        Ok(Seq::empty())
    } else if ptrs[0] > content.len() {
        Err(ErrorKind::Bounds)
    } else {
        let one = if pt is TableLeaf {
            leaf_cell_parse(content.skip(ptrs[0] as int))
        } else {
            interior_cell_parse(content.skip(ptrs[0] as int))
        };
        match one {
            Err(k) => Err(k),
            Ok(c) => match cells_parse(content, ptrs.drop_first(), pt) {
                Ok(rest) => Ok(seq![c] + rest),
                Err(k) => Err(k),
            },
        }
    }
}

/// What parsing a raw page buffer yields: on page 1 the body starts after
/// the 100-byte database header and cell pointers are adjusted accordingly.
pub open spec fn page_parse(buf: Seq<u8>, page_num: int) -> Result<PageView, ErrorKind> {
    let po: int = if page_num == 1 {
        100
    } else {
        0
    };
    if buf.len() < po {
        Err(ErrorKind::Bounds)
    } else {
        let content = buf.skip(po);
        match page_header_parse(content) {
            Err(k) => Err(k),
            Ok(h) => {
                let hsize = spec_header_byte_size(h);
                if hsize + 2 * h.cell_count > content.len() {
                    Err(ErrorKind::Bounds)
                } else {
                    match cell_pointers_from(content.skip(hsize), 0, h.cell_count as int, po) {
                        Err(k) => Err(k),
                        Ok(ptrs) => {
                            if !(h.page_type is TableLeaf || h.page_type is TableInterior) {
                                Err(ErrorKind::Unimplemented)
                            } else {
                                match cells_parse(content, ptrs, h.page_type) {
                                    Err(k) => Err(k),
                                    Ok(cells) => Ok(
                                        PageView { header: h, cell_pointers: ptrs, cells },
                                    ),
                                }
                            }
                        },
                    }
                }
            },
        }
    }
}

/// Parse one table-leaf cell from the start of `buffer`.
pub fn parse_table_leaf_cell(buffer: &[u8]) -> (r: Result<Cell, DbError>)
    ensures
        match r {
            Ok(c) => leaf_cell_parse(buffer@) == Ok::<CellView, ErrorKind>(c@),
            Err(e) => leaf_cell_parse(buffer@) == Err::<CellView, ErrorKind>(e.kind),
        },
{
    let len = buffer.len();
    if !varint_ok_within(buffer, 0, len) {
        return Err(DbError::new(ErrorKind::Bounds, "cell size varint out of bounds"));
    }
    let (n1, size) = read_varint_at(buffer, 0);
    if !varint_ok_within(buffer, n1 as usize, len) {
        return Err(DbError::new(ErrorKind::Bounds, "cell row id varint out of bounds"));
    }
    let (n2, row_id) = read_varint_at(buffer, n1 as usize);
    let start = n1 as usize + n2 as usize;
    if size < 0 {
        return Err(DbError::new(ErrorKind::Format, "negative cell payload size"));
    }
    if size as u64 > (len - start) as u64 {
        return Err(DbError::new(ErrorKind::Unimplemented, "payload overflow"));
    }
    let payload = vstd::slice::slice_to_vec(
        vstd::slice::slice_subrange(buffer, start, start + size as usize),
    );
    Ok(Cell::TableLeaf(TableLeafCell { size, row_id, payload, overflow_page_num: None }))
}

/// Parse one table-interior cell from the start of `buffer`.
pub fn parse_table_interior_cell(buffer: &[u8]) -> (r: Result<Cell, DbError>)
    ensures
        match r {
            Ok(c) => interior_cell_parse(buffer@) == Ok::<CellView, ErrorKind>(c@),
            Err(e) => interior_cell_parse(buffer@) == Err::<CellView, ErrorKind>(e.kind),
        },
{
    let len = buffer.len();
    if len < 4 {
        return Err(DbError::new(ErrorKind::Bounds, "interior cell too short"));
    }
    let left_child_page = read_be_double_at(buffer, 0);
    if !varint_ok_within(buffer, 4, len) {
        return Err(DbError::new(ErrorKind::Bounds, "interior cell key out of bounds"));
    }
    let (_, key) = read_varint_at(buffer, 4);
    Ok(Cell::TableInterior(TableInteriorCell { left_child_page, key }))
}

/// Parse the 8- or 12-byte page header at the start of a page body.
pub fn parse_page_header(buffer: &[u8]) -> (r: Result<PageHeader, DbError>)
    ensures
        match r {
            Ok(h) => page_header_parse(buffer@) == Ok::<PageHeader, ErrorKind>(h),
            Err(e) => {
                &&& page_header_parse(buffer@) == Err::<PageHeader, ErrorKind>(e.kind)
                &&& (e.kind == ErrorKind::Format ==> e.message@ == "unknown page type"@)
            },
        },
{
    let len = buffer.len();
    if len < 8 {
        return Err(DbError::new(ErrorKind::Bounds, "page header too short"));
    }
    let type_byte = buffer[0];
    let page_type: PageType;
    let has_rightmost: bool;
    if type_byte == 0x0d {
        page_type = PageType::TableLeaf;
        has_rightmost = false;
    } else if type_byte == 0x05 {
        page_type = PageType::TableInterior;
        has_rightmost = true;
    } else if type_byte == 0x02 {
        page_type = PageType::IndexInterior;
        has_rightmost = true;
    } else if type_byte == 0x0a {
        page_type = PageType::IndexLeaf;
        has_rightmost = false;
    } else {
        return Err(DbError::new(ErrorKind::Format, "unknown page type"));
    }
    if has_rightmost && len < 12 {
        return Err(DbError::new(ErrorKind::Bounds, "page header too short"));
    }

    let first_freeblock = read_be_word_at(buffer, PAGE_FIRST_FREEBLOCK_OFFSET);
    let cell_count = read_be_word_at(buffer, PAGE_CELL_COUNT_OFFSET);
    let raw_content = read_be_word_at(buffer, PAGE_CELL_CONTENT_OFFSET);
    let cell_content_offset: u32 = if raw_content == 0 {
        65536
    } else {
        raw_content as u32
    };
    let fragmented_bytes_count = buffer[PAGE_FRAGMENTED_BYTES_COUNT_OFFSET];
    let rightmost_pointer: Option<u32> = if has_rightmost {
        Some(read_be_double_at(buffer, PAGE_LEAF_HEADER_SIZE))
    } else {
        None
    };

    Ok(
        PageHeader {
            page_type,
            first_freeblock,
            cell_count,
            cell_content_offset,
            fragmented_bytes_count,
            rightmost_pointer,
        },
    )
}

/// Read `n` cell pointers from the start of `buffer`, adjusting each by
/// `ptr_offset`.
pub fn parse_cell_pointers(buffer: &[u8], n: usize, ptr_offset: u16) -> (r: Result<
    Vec<u16>,
    DbError,
>)
    requires
        2 * n <= buffer@.len(),
    ensures
        match r {
            Ok(ptrs) => cell_pointers_from(buffer@, 0, n as int, ptr_offset as int) == Ok::<
                Seq<u16>,
                ErrorKind,
            >(ptrs@),
            Err(e) => cell_pointers_from(buffer@, 0, n as int, ptr_offset as int) == Err::<
                Seq<u16>,
                ErrorKind,
            >(e.kind),
        },
{
    let ghost s = buffer@;
    let blen = buffer.len();
    let mut pointers: Vec<u16> = Vec::new();
    let mut i: usize = 0;
    while i < n
        invariant
            i <= n,
            2 * n <= s.len(),
            blen == s.len(),
            s == buffer@,
            cell_pointers_from(s, 0, n as int, ptr_offset as int) == (match cell_pointers_from(
                s,
                i as int,
                n as int,
                ptr_offset as int,
            ) {
                Ok(rest) => Ok::<Seq<u16>, ErrorKind>(pointers@ + rest),
                Err(k) => Err::<Seq<u16>, ErrorKind>(k),
            }),
        decreases n - i,
    {
        let raw = read_be_word_at(buffer, 2 * i);
        if raw < ptr_offset {
            return Err(DbError::new(ErrorKind::Format, "cell pointer before page body"));
        }
        let ghost prev = pointers@;
        pointers.push(raw - ptr_offset);
        i = i + 1;
        proof {
            match cell_pointers_from(s, i as int, n as int, ptr_offset as int) {
                Ok(rest) => {
                    assert(pointers@ + rest =~= prev + (seq![(raw - ptr_offset) as u16] + rest));
                },
                Err(_) => {},
            }
        }
    }
    proof {
        match cell_pointers_from(s, n as int, n as int, ptr_offset as int) {
            Ok(rest) => {
                assert(pointers@ + rest =~= pointers@);
            },
            Err(_) => {},
        }
    }
    Ok(pointers)
}

/// Parse the cells named by the pointer array out of a page body, using the
/// cell layout of the given page kind.
pub fn parse_cells(content: &[u8], cell_pointers: &Vec<u16>, page_type: PageType) -> (r: Result<
    Vec<Cell>,
    DbError,
>)
    requires
        page_type is TableLeaf || page_type is TableInterior,
    ensures
        match r {
            Ok(cells) => cells_parse(content@, cell_pointers@, page_type) == Ok::<
                Seq<CellView>,
                ErrorKind,
            >(cells@.map(|i: int, c: Cell| c@)),
            Err(e) => cells_parse(content@, cell_pointers@, page_type) == Err::<
                Seq<CellView>,
                ErrorKind,
            >(e.kind),
        },
{
    let ghost s = content@;
    let ghost allptrs = cell_pointers@;
    let clen = content.len();
    let mut cells: Vec<Cell> = Vec::new();
    let mut i: usize = 0;
    proof {
        assert(allptrs.skip(0) =~= allptrs);
        match cells_parse(s, allptrs, page_type) {
            Ok(rest) => {
                assert(cells@.map(|j: int, c: Cell| c@) + rest =~= rest);
            },
            Err(_) => {},
        }
    }
    while i < cell_pointers.len()
        invariant
            i <= allptrs.len(),
            s == content@,
            allptrs == cell_pointers@,
            clen == s.len(),
            page_type is TableLeaf || page_type is TableInterior,
            cells_parse(s, allptrs, page_type) == (match cells_parse(
                s,
                allptrs.skip(i as int),
                page_type,
            ) {
                Ok(rest) => Ok::<Seq<CellView>, ErrorKind>(
                    cells@.map(|j: int, c: Cell| c@) + rest,
                ),
                Err(k) => Err::<Seq<CellView>, ErrorKind>(k),
            }),
        decreases allptrs.len() - i,
    {
        let ghost tail = allptrs.skip(i as int);
        proof {
            assert(tail[0] == allptrs[i as int]);
            assert(tail.drop_first() =~= allptrs.skip(i as int + 1));
        }
        let p = cell_pointers[i];
        if p as usize > clen {
            return Err(DbError::new(ErrorKind::Bounds, "cell pointer out of page"));
        }
        let cell_buf = vstd::slice::slice_subrange(content, p as usize, clen);
        let parsed: Result<Cell, DbError> = match page_type {
            PageType::TableLeaf => parse_table_leaf_cell(cell_buf),
            _ => parse_table_interior_cell(cell_buf),
        };
        let ghost prev = cells@;
        match parsed {
            Ok(c) => {
                cells.push(c);
                i = i + 1;
                proof {
                    match cells_parse(s, allptrs.skip(i as int), page_type) {
                        Ok(rest) => {
                            assert(cells@.map(|j: int, c: Cell| c@) =~= prev.map(
                                |j: int, c: Cell| c@,
                            ).push(c@));
                            assert(cells@.map(|j: int, c: Cell| c@) + rest =~= prev.map(
                                |j: int, c: Cell| c@,
                            ) + (seq![c@] + rest));
                        },
                        Err(_) => {},
                    }
                }
            },
            Err(e) => {
                return Err(e);
            },
        }
    }
    proof {
        assert(allptrs.skip(i as int) =~= Seq::empty());
        match cells_parse(s, allptrs.skip(i as int), page_type) {
            Ok(rest) => {
                assert(cells@.map(|j: int, c: Cell| c@) + rest =~= cells@.map(
                    |j: int, c: Cell| c@,
                ));
            },
            Err(_) => {},
        }
    }
    Ok(cells)
}

/// Parse one raw page buffer into a typed page.
pub fn parse_page(buffer: &[u8], page_num: usize) -> (r: Result<Page, DbError>)
    ensures
        match r {
            Ok(p) => page_parse(buffer@, page_num as int) == Ok::<PageView, ErrorKind>(p@),
            Err(e) => page_parse(buffer@, page_num as int) == Err::<PageView, ErrorKind>(e.kind),
        },
{
    let blen = buffer.len();
    let ptr_offset: u16 = if page_num == 1 {
        HEADER_SIZE as u16
    } else {
        0
    };
    if blen < ptr_offset as usize {
        return Err(DbError::new(ErrorKind::Bounds, "page shorter than its header offset"));
    }
    let content = vstd::slice::slice_subrange(buffer, ptr_offset as usize, blen);
    let header = match parse_page_header(content) {
        Ok(h) => h,
        Err(e) => {
            return Err(e);
        },
    };
    let hsize = header.byte_size();
    let clen = content.len();
    if header.cell_count as usize > (clen - hsize) / 2 {
        return Err(DbError::new(ErrorKind::Bounds, "cell pointer array out of page"));
    }
    let ptr_buf = vstd::slice::slice_subrange(content, hsize, clen);
    let cell_pointers = match parse_cell_pointers(ptr_buf, header.cell_count as usize, ptr_offset) {
        Ok(ps) => ps,
        Err(e) => {
            return Err(e);
        },
    };
    match header.page_type {
        PageType::TableLeaf | PageType::TableInterior => {},
        _ => {
            return Err(DbError::new(ErrorKind::Unimplemented, "parsing index is not implemented"));
        },
    }
    let cells = match parse_cells(content, &cell_pointers, header.page_type) {
        Ok(cs) => cs,
        Err(e) => {
            return Err(e);
        },
    };
    Ok(Page { header, cell_pointers, cells })
}

/// Reads of a page out of the file bytes: the page's block is sliced and
/// decoded; a block that runs past the end of the file is a read failure.
pub open spec fn page_read(data: Seq<u8>, page_size: int, n: int) -> Result<PageView, ErrorKind> {
    let off: int = if n == 0 {
        0
    } else {
        (n - 1) * page_size
    };
    if page_size < 1 || off + page_size > data.len() {
        Err(ErrorKind::Io)
    } else {
        page_parse(data.subrange(off, off + page_size), n)
    }
}

/// The pager: holds the database file's bytes and decodes whole pages on
/// demand. Page numbers are 1-based. Decoding is deterministic in the file
/// contents, so every read of a page number yields the same page.
#[derive(Debug)]
pub struct Pager {
    data: Vec<u8>,
    page_size: usize,
}

impl Pager {
    /// The file bytes this pager reads from.
    pub closed spec fn data_view(&self) -> Seq<u8> {
        self.data@
    }

    /// The page size this pager was built with.
    pub closed spec fn psize(&self) -> int {
        self.page_size as int
    }

    /// Build a pager over the file bytes with the given page size.
    pub fn new(data: Vec<u8>, page_size: usize) -> (r: Pager)
        requires
            1 <= page_size,
        ensures
            r.data_view() == data@,
            r.psize() == page_size,
            r.psize() >= 1,
    {
        Pager { data, page_size }
    }

    /// Read and decode page `n`.
    pub fn read_page(&self, n: usize) -> (r: Result<Page, DbError>)
        ensures
            match r {
                Ok(p) => page_read(self.data_view(), self.psize(), n as int) == Ok::<
                    PageView,
                    ErrorKind,
                >(p@),
                Err(e) => page_read(self.data_view(), self.psize(), n as int) == Err::<
                    PageView,
                    ErrorKind,
                >(e.kind),
            },
{
        let dlen = self.data.len();
        let ps = self.page_size;
        let n0: usize = if n == 0 {
            0
        } else {
            n - 1
        };
        if ps == 0 || n0 > dlen / ps {
            proof {
                if ps != 0 {
                    let q = dlen as int / ps as int;
                    vstd::arithmetic::div_mod::lemma_fundamental_div_mod(dlen as int, ps as int);
                    vstd::arithmetic::div_mod::lemma_mod_division_less_than_divisor(
                        dlen as int,
                        ps as int,
                    );
                    vstd::arithmetic::mul::lemma_mul_inequality(q + 1, n0 as int, ps as int);
                    assert((q + 1) * ps == q * ps + ps) by (nonlinear_arith);
                    assert(n0 as int * ps as int > dlen);
                }
            }
            return Err(DbError::new(ErrorKind::Io, "read page"));
        }
        proof {
            let q = dlen as int / ps as int;
            vstd::arithmetic::div_mod::lemma_fundamental_div_mod(dlen as int, ps as int);
            vstd::arithmetic::div_mod::lemma_mod_division_less_than_divisor(dlen as int, ps as int);
            vstd::arithmetic::mul::lemma_mul_inequality(n0 as int, q, ps as int);
            assert(n0 as int * ps as int <= dlen);
        }
        let off = n0 * ps;
        if off > dlen || ps > dlen - off {
            return Err(DbError::new(ErrorKind::Io, "read page"));
        }
        let block = vstd::slice::slice_subrange(self.data.as_slice(), off, off + ps);
        match parse_page(block, n) {
            Ok(p) => Ok(p),
            Err(e) => Err(e),
        }
    }

    /// The number of bytes of the underlying file.
    pub fn data_len(&self) -> (r: usize)
        ensures
            r == self.data_view().len(),
    {
        self.data.len()
    }

    /// A copy of this pager over the same bytes.
    pub fn duplicate(&self) -> (r: Pager)
        ensures
            r.data_view() == self.data_view(),
            r.psize() == self.psize(),
    {
        Pager { data: clone_bytes(&self.data), page_size: self.page_size }
    }
}

} // verus!
