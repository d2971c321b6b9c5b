//! A decoded page together with a position in its cell list, one frame of
//! the scanner's traversal stack.

use vstd::prelude::*;

use super::page_utils::{Cell, Page, PageType, TableInteriorCell, TableLeafCell};
use crate::clone_bytes;

verus! {

/// A page and the index of the next cell to visit on it.
#[derive(Debug)]
pub struct PositionedPage {
    pub page: Page,
    pub cell: usize,
}

/// Copy a cell, keeping its content.
pub fn cell_dup(c: &Cell) -> (r: Cell)
    ensures
        r@ == c@,
{
    match c {
        Cell::TableLeaf(t) => Cell::TableLeaf(
            TableLeafCell {
                size: t.size,
                row_id: t.row_id,
                payload: clone_bytes(&t.payload),
                overflow_page_num: t.overflow_page_num,
            },
        ),
        Cell::TableInterior(t) => Cell::TableInterior(
            TableInteriorCell { left_child_page: t.left_child_page, key: t.key },
        ),
        Cell::IndexLeaf(t) => Cell::IndexLeaf(
            super::page_utils::IndexLeafCell {
                size: t.size,
                payload: clone_bytes(&t.payload),
                overflow_page_num: t.overflow_page_num,
            },
        ),
        Cell::IndexInterior(t) => Cell::IndexInterior(
            super::page_utils::IndexInteriorCell {
                left_child_page: t.left_child_page,
                size: t.size,
                payload: clone_bytes(&t.payload),
                overflow_page_num: t.overflow_page_num,
            },
        ),
    }
}

impl PositionedPage {
    /// The next cell to visit, advancing the position past it.
    pub fn next_cell(&mut self) -> (r: Option<Cell>)
        ensures
            final(self).page == old(self).page,
            final(self).cell == if old(self).cell < usize::MAX {
                old(self).cell + 1
            } else {
                old(self).cell as int
            },
            match r {
                Some(c) => {
                    &&& old(self).cell < old(self).page.cells@.len()
                    &&& c@ == old(self).page@.cells[old(self).cell as int]
                },
                None => old(self).cell >= old(self).page.cells@.len(),
            },
    {
        let r = if self.cell < self.page.cells.len() {
            let c = cell_dup(&self.page.cells[self.cell]);
            assert(c@ == self.page@.cells[self.cell as int]);
            Some(c)
        } else {
            None
        };
        if self.cell < usize::MAX {
            self.cell = self.cell + 1;
        }
        r
    }

    /// On an interior table page whose cells are exhausted, step past them
    /// and hand out the rightmost child page, once.
    pub fn next_page(&mut self) -> (r: Option<u32>)
        ensures
            final(self).page == old(self).page,
            ({
                let fire = old(self).page.header.page_type is TableInterior && old(self).cell
                    == old(self).page.cells@.len();
                if fire {
                    &&& r == old(self).page.header.rightmost_pointer
                    &&& final(self).cell == if old(self).cell < usize::MAX {
                        old(self).cell + 1
                    } else {
                        old(self).cell as int
                    }
                } else {
                    r is None && final(self).cell == old(self).cell
                }
            }),
    {
        if self.page.header.page_type == PageType::TableInterior && self.cell
            == self.page.cells.len() {
            if self.cell < usize::MAX {
                self.cell = self.cell + 1;
            }
            self.page.header.rightmost_pointer
        } else {
            None
        }
    }
}

} // verus!
