//! The typed model of one decoded B-tree page: header, cell pointers and
//! cells.

use vstd::prelude::*;

verus! {

/// A table-leaf cell: payload size, row id, and the in-page payload bytes.
#[derive(Debug, Clone, PartialEq)]
pub struct TableLeafCell {
    pub size: i64,
    pub row_id: i64,
    pub payload: Vec<u8>,
    pub overflow_page_num: Option<u32>,
}

/// A table-interior cell: the left child page and its key.
#[derive(Debug, Clone, PartialEq)]
pub struct TableInteriorCell {
    pub left_child_page: u32,
    pub key: i64,
}

/// An index-leaf cell; index pages are recognized but not decoded.
#[derive(Debug, Clone, PartialEq)]
pub struct IndexLeafCell {
    pub size: i64,
    pub payload: Vec<u8>,
    pub overflow_page_num: Option<u32>,
}

/// An index-interior cell; index pages are recognized but not decoded.
#[derive(Debug, Clone, PartialEq)]
pub struct IndexInteriorCell {
    pub left_child_page: u32,
    pub size: i64,
    pub payload: Vec<u8>,
    pub overflow_page_num: Option<u32>,
}

/// One cell of a page.
#[derive(Debug, Clone, PartialEq)]
pub enum Cell {
    TableLeaf(TableLeafCell),
    TableInterior(TableInteriorCell),
    IndexLeaf(IndexLeafCell),
    IndexInterior(IndexInteriorCell),
}

/// The mathematical content of a [`Cell`].
pub enum CellView {
    TableLeaf { size: int, row_id: i64, payload: Seq<u8>, overflow_page_num: Option<u32> },
    TableInterior { left_child_page: u32, key: i64 },
    IndexLeaf { size: int, payload: Seq<u8>, overflow_page_num: Option<u32> },
    IndexInterior { left_child_page: u32, size: int, payload: Seq<u8>, overflow_page_num: Option<
        u32,
    > },
}

impl View for Cell {
    type V = CellView;

    open spec fn view(&self) -> CellView {
        match self {
            Cell::TableLeaf(c) => CellView::TableLeaf {
                size: c.size as int,
                row_id: c.row_id,
                payload: c.payload@,
                overflow_page_num: c.overflow_page_num,
            },
            Cell::TableInterior(c) => CellView::TableInterior {
                left_child_page: c.left_child_page,
                key: c.key,
            },
            Cell::IndexLeaf(c) => CellView::IndexLeaf {
                size: c.size as int,
                payload: c.payload@,
                overflow_page_num: c.overflow_page_num,
            },
            Cell::IndexInterior(c) => CellView::IndexInterior {
                left_child_page: c.left_child_page,
                size: c.size as int,
                payload: c.payload@,
                overflow_page_num: c.overflow_page_num,
            },
        }
    }
}

/// The four B-tree page kinds.
#[derive(Debug, Clone, Copy, PartialEq, Eq, Structural)]
pub enum PageType {
    TableLeaf,
    TableInterior,
    IndexLeaf,
    IndexInterior,
}

/// The decoded page header.
#[derive(Debug, Clone, Copy, PartialEq)]
pub struct PageHeader {
    /// B-tree page kind.
    pub page_type: PageType,
    /// Start of the first freeblock on the page, or 0 when there is none.
    pub first_freeblock: u16,
    pub cell_count: u16,
    /// Start of the cell content area; a stored 0 denotes 65536.
    pub cell_content_offset: u32,
    /// Number of fragmented free bytes within the cell content area.
    pub fragmented_bytes_count: u8,
    /// Rightmost child page; present on interior pages only.
    pub rightmost_pointer: Option<u32>,
}

impl PageHeader {
    /// The size of the header on disk: 12 bytes with a rightmost pointer,
    /// 8 without.
    pub fn byte_size(&self) -> (r: usize)
        ensures
            r == spec_header_byte_size(*self),
    {
        if self.rightmost_pointer.is_some() {
            12
        } else {
            8
        }
    }
}

/// The on-disk size of a page header.
pub open spec fn spec_header_byte_size(h: PageHeader) -> int {
    if h.rightmost_pointer is Some {
        12
    } else {
        8
    }
}

/// A decoded page: header, cell-pointer array, and cells in on-disk order.
#[derive(Debug, Clone, PartialEq)]
pub struct Page {
    pub header: PageHeader,
    pub cell_pointers: Vec<u16>,
    pub cells: Vec<Cell>,
}

/// The mathematical content of a [`Page`].
pub struct PageView {
    pub header: PageHeader,
    pub cell_pointers: Seq<u16>,
    pub cells: Seq<CellView>,
}

impl View for Page {
    type V = PageView;

    open spec fn view(&self) -> PageView {
        PageView {
            header: self.header,
            cell_pointers: self.cell_pointers@,
            cells: self.cells@.map(|i: int, c: Cell| c@),
        }
    }
}

} // verus!
