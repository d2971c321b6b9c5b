//! Depth-first traversal of a table B-tree, yielding one cursor per table
//! row in left-to-right order.

use vstd::prelude::*;

use super::cursor::Cursor;
use super::record::{parse_record_header, record_header_parse};
use crate::error::{DbError, ErrorKind};
use crate::page::page_utils::{Cell, CellView, PageView};
use crate::page::pager::{Pager, page_read};
use crate::page::positioned_page::PositionedPage;

verus! {

/// The payload a table-leaf cell carries.
pub open spec fn cell_payload(c: CellView) -> Seq<u8> {
    match c {
        CellView::TableLeaf { payload, .. } => payload,
        _ => Seq::empty(),
    }
}

/// The row payloads of one leaf page, in on-disk order.
pub open spec fn leaf_rows(p: PageView) -> Seq<Seq<u8>> {
    p.cells.map(|i: int, c: CellView| cell_payload(c))
}

/// A well-formed single-page table: the root decodes to a table-leaf page
/// whose cells are leaf cells with records that parse, and the file is
/// large enough to hold what the page claims.
pub open spec fn wf_leaf_table(data: Seq<u8>, ps: int, root: int) -> bool {
    &&& page_read(data, ps, root) is Ok
    &&& ({
        let p = page_read(data, ps, root)->Ok_0;
        &&& p.header.page_type is TableLeaf
        &&& (forall|i: int| 0 <= i < p.cells.len() ==> (#[trigger] p.cells[i]) is TableLeaf)
        &&& (forall|i: int|
            0 <= i < p.cells.len() ==> record_header_parse(
                cell_payload(#[trigger] p.cells[i]),
            ) is Ok)
        &&& data.len() >= p.cells.len() + 2
    })
}

/// One step of the traversal: a child page to descend into, or a row.
enum ScannerElem {
    Page(u32),
    Cursor(Cursor),
}

/// The traversal steps one stack frame still owes: the cells not yet
/// visited, plus one step for the rightmost child and one for the final
/// advance past the page.
pub open spec fn frame_work(f: PositionedPage) -> int {
    let n = f.page.cells@.len() as int;
    if f.cell <= n + 1 {
        n + 2 - f.cell
    } else {
        0
    }
}

/// The traversal steps a whole stack still owes.
pub open spec fn stack_work(s: Seq<PositionedPage>) -> int
    decreases s.len(),
{
    if s.len() == 0 {
        0
    } else {
        stack_work(s.drop_last()) + frame_work(s.last())
    }
}

proof fn lemma_stack_work_nonneg(s: Seq<PositionedPage>)
    ensures
        stack_work(s) >= 0,
    decreases s.len(),
{
    if s.len() > 0 {
        lemma_stack_work_nonneg(s.drop_last());
    }
}

proof fn lemma_stack_work_push(s: Seq<PositionedPage>, f: PositionedPage)
    ensures
        stack_work(s.push(f)) == stack_work(s) + frame_work(f),
{
    assert(s.push(f).drop_last() =~= s);
    assert(s.push(f).last() == f);
}

/// A depth-first scanner over the table B-tree rooted at a given page.
///
/// The traversal keeps a stack of positioned pages. Each page visited
/// consumes one unit of a budget sized to the file, so a malformed file
/// whose page graph is cyclic is reported as an error instead of being
/// walked forever.
#[derive(Debug)]
pub struct Scanner {
    pager: Pager,
    initial_page: usize,
    page_stack: Vec<PositionedPage>,
    budget: usize,
}

impl Scanner {
    /// The file bytes the scanner reads from.
    pub closed spec fn data(&self) -> Seq<u8> {
        self.pager.data_view()
    }

    /// The page size the scanner's pager uses.
    pub closed spec fn psize(&self) -> int {
        self.pager.psize()
    }

    /// The traversal budget still available.
    pub closed spec fn budget_left(&self) -> int {
        self.budget as int
    }

    /// The traversal stack.
    pub closed spec fn stack(&self) -> Seq<PositionedPage> {
        self.page_stack@
    }

    /// The traversal steps the scanner still owes before exhaustion.
    pub closed spec fn work(&self) -> int {
        stack_work(self.page_stack@)
    }

    /// The owed work never sits below zero.
    pub proof fn lemma_work_nonneg(&self)
        ensures
            self.work() >= 0,
    {
        lemma_stack_work_nonneg(self.page_stack@);
    }

    /// The budget never sits below zero.
    pub proof fn lemma_budget_nonneg(&self)
        ensures
            self.budget_left() >= 0,
    {
    }

    /// The root page of the traversal.
    pub closed spec fn root(&self) -> int {
        self.initial_page as int
    }

    /// How far into a single-leaf-page table the traversal has advanced.
    pub closed spec fn leaf_pos(&self) -> int {
        if self.page_stack@.len() == 0 {
            0
        } else {
            self.page_stack@.last().cell as int
        }
    }

    /// The traversal position never sits below zero.
    pub proof fn lemma_leaf_pos_nonneg(&self)
        ensures
            self.leaf_pos() >= 0,
    {
    }

    /// The scanner stands in a consistent state over a well-formed
    /// single-leaf-page table: its stack holds at most the decoded root
    /// page, and enough budget remains to finish the scan.
    pub closed spec fn leaf_ok(&self) -> bool {
        &&& wf_leaf_table(self.data(), self.psize(), self.root())
        &&& self.page_stack@.len() <= 1
        &&& (self.page_stack@.len() == 0 ==> self.budget as int == self.data().len())
        &&& (self.page_stack@.len() == 1 ==> {
            let p = page_read(self.data(), self.psize(), self.root())->Ok_0;
            &&& self.page_stack@[0].page@ == p
            &&& self.budget as int >= 1 + leaf_rows(p).len() - self.page_stack@[0].cell
        })
    }

    /// The rows the scanner's table holds, for a single-leaf-page table.
    pub open spec fn table_rows(&self) -> Seq<Seq<u8>> {
        leaf_rows(page_read(self.data(), self.psize(), self.root())->Ok_0)
    }

    /// Build a scanner over the given pager, rooted at `page`.
    pub fn new(pager: Pager, page: usize) -> (r: Scanner)
        ensures
            r.data() == pager.data_view(),
            r.psize() == pager.psize(),
            r.root() == page,
            r.stack() =~= Seq::<PositionedPage>::empty(),
            wf_leaf_table(pager.data_view(), pager.psize(), page as int) ==> r.leaf_ok()
                && r.leaf_pos() == 0,
    {
        let budget = pager.data_len();
        Scanner { pager, initial_page: page, page_stack: Vec::new(), budget }
    }

    /// Descend into page `n`: decode it and push it onto the stack.
    fn push_page(&mut self, n: usize) -> (r: Result<(), DbError>)
        ensures
            final(self).data() == old(self).data(),
            final(self).psize() == old(self).psize(),
            final(self).root() == old(self).root(),
            match r {
                Ok(_) => {
                    &&& final(self).budget_left() == old(self).budget_left() - 1
                    &&& final(self).stack().len() == old(self).stack().len() + 1
                    &&& final(self).stack().drop_last() == old(self).stack()
                    &&& page_read(old(self).data(), old(self).psize(), n as int) is Ok
                    &&& final(self).stack().last().page@ == page_read(
                        old(self).data(),
                        old(self).psize(),
                        n as int,
                    )->Ok_0
                    &&& final(self).stack().last().cell == 0
                },
                Err(_) => *final(self) == *old(self) && (old(self).budget_left() == 0
                    || page_read(old(self).data(), old(self).psize(), n as int) is Err),
            },
    {
        if self.budget == 0 {
            return Err(DbError::new(ErrorKind::Format, "page tree deeper than the file"));
        }
        let page = match self.pager.read_page(n) {
            Ok(p) => p,
            Err(e) => {
                return Err(e);
            },
        };
        self.budget = self.budget - 1;
        self.page_stack.push(PositionedPage { page, cell: 0 });
        proof {
            assert(self.page_stack@.drop_last() =~= old(self).page_stack@);
        }
        Ok(())
    }

    /// Produce the next traversal step from the top of the stack.
    fn next_elem(&mut self) -> (r: Result<Option<ScannerElem>, DbError>)
        ensures
            final(self).data() == old(self).data(),
            final(self).psize() == old(self).psize(),
            final(self).root() == old(self).root(),
            final(self).budget_left() <= old(self).budget_left(),
            final(self).budget_left() < old(self).budget_left() || (final(self).work() <= old(
                self,
            ).work() && final(self).stack().len() == old(self).stack().len()),
            match r {
                Ok(Some(ScannerElem::Cursor(c))) => record_header_parse(c.payload@)
                    == Ok::<_, ErrorKind>(c.header.fields@),
                _ => true,
            },
            old(self).leaf_ok() ==> {
                let rows = old(self).table_rows();
                let opos = old(self).leaf_pos();
                &&& final(self).stack().len() == 1
                &&& match r {
                    Ok(Some(ScannerElem::Cursor(c))) => {
                        &&& 0 <= opos < rows.len()
                        &&& c.payload@ == rows[opos]
                        &&& final(self).leaf_pos() == opos + 1
                        &&& final(self).budget_left() >= 1 + rows.len() - opos
                    },
                    Ok(None) => {
                        &&& opos >= rows.len()
                        &&& (final(self).leaf_pos() > opos || final(self).leaf_pos()
                            == usize::MAX)
                        &&& (final(self).budget_left() == old(self).budget_left()
                            || final(self).budget_left() >= 1 + rows.len())
                    },
                    _ => false,
                }
                &&& final(self).leaf_ok()
            },
    {
        let ghost entry = *self;
        let ghost lf = entry.leaf_ok();
        let ghost p_spec = page_read(entry.data(), entry.psize(), entry.root())->Ok_0;
        let ghost rows = entry.table_rows();
        if self.page_stack.len() == 0 {
            let root = self.initial_page;
            match self.push_page(root) {
                Ok(_) => {},
                Err(e) => {
                    proof {
                        if lf {
                            assert(entry.budget_left() == entry.data().len());
                            assert(entry.data().len() >= 2);
                            assert(false);
                        }
                    }
                    return Err(e);
                },
            }
        }
        let ghost s0 = self.page_stack@;
        proof {
            if lf {
                assert(s0.len() == 1);
                assert(s0[0].page@ == p_spec);
                assert(s0[0].cell == entry.leaf_pos());
            }
        }
        let mut top = self.page_stack.pop().unwrap();
        let ghost t0 = top;
        proof {
            assert(stack_work(s0) == stack_work(s0.drop_last()) + frame_work(s0.last()));
        }

        if let Some(page_num) = top.next_page() {
            self.page_stack.push(top);
            proof {
                lemma_stack_work_push(s0.drop_last(), top);
                assert(frame_work(top) <= frame_work(t0));
                if lf {
                    assert(p_spec.header.page_type is TableLeaf);
                    assert(false);
                }
            }
            return Ok(Some(ScannerElem::Page(page_num)));
        }

        let n_cells = top.page.cells.len();
        let cell = match top.next_cell() {
            Some(c) => c,
            None => {
                proof {
                    assert(n_cells == t0.page.cells@.len());
                }
                self.page_stack.push(top);
                proof {
                    lemma_stack_work_push(s0.drop_last(), top);
                    assert(frame_work(top) <= frame_work(t0));
                    if lf {
                        assert(t0.cell >= p_spec.cells.len());
                        assert(rows.len() == p_spec.cells.len());
                        assert(self.page_stack@.len() == 1);
                        assert(self.page_stack@[0].page@ == p_spec);
                    }
                }
                return Ok(None);
            },
        };
        self.page_stack.push(top);
        proof {
            lemma_stack_work_push(s0.drop_last(), top);
            assert(frame_work(top) <= frame_work(t0));
            if lf {
                assert(cell@ == p_spec.cells[t0.cell as int]);
                assert(p_spec.cells[t0.cell as int] is TableLeaf);
                assert(rows[t0.cell as int] == cell_payload(p_spec.cells[t0.cell as int]));
            }
        }

        match cell {
            Cell::TableLeaf(leaf) => {
                let header = match parse_record_header(leaf.payload.as_slice()) {
                    Ok(h) => h,
                    Err(e) => {
                        proof {
                            if lf {
                                assert(record_header_parse(leaf.payload@) is Ok);
                                assert(false);
                            }
                        }
                        return Err(e);
                    },
                };
                Ok(Some(ScannerElem::Cursor(Cursor { header, payload: leaf.payload })))
            },
            Cell::TableInterior(interior) => {
                proof {
                    if lf {
                        assert(false);
                    }
                }
                Ok(Some(ScannerElem::Page(interior.left_child_page)))
            },
            _ => {
                proof {
                    if lf {
                        assert(false);
                    }
                }
                Err(DbError::new(ErrorKind::Unimplemented, "scanning index cells"))
            },
        }
    }

    /// The next row of the table, as a cursor over its record, or `None`
    /// once the traversal is exhausted. Every row handed out also consumes
    /// one unit of the traversal budget.
    ///
    /// Scanner exhaustiveness: on a well-formed single-leaf-page table with
    /// `k` rows, a fresh scanner's position starts at 0, each call yields
    /// the row at the current position and advances it by one, and once the
    /// position reaches `k` every further call returns `None` — so exactly
    /// `k` cursors come out, in on-disk order, and then `None` forever.
    pub fn next_record(&mut self) -> (r: Result<Option<Cursor>, DbError>)
        ensures
            final(self).data() == old(self).data(),
            final(self).psize() == old(self).psize(),
            final(self).root() == old(self).root(),
            final(self).budget_left() <= old(self).budget_left(),
            match r {
                Ok(Some(c)) => {
                    &&& record_header_parse(c.payload@) == Ok::<_, ErrorKind>(c.header.fields@)
                    &&& final(self).budget_left() < old(self).budget_left()
                },
                _ => true,
            },
            old(self).leaf_ok() ==> {
                let rows = old(self).table_rows();
                let opos = old(self).leaf_pos();
                &&& final(self).leaf_ok()
                &&& match r {
                    Ok(Some(c)) => {
                        &&& 0 <= opos < rows.len()
                        &&& c.payload@ == rows[opos]
                        &&& final(self).leaf_pos() == opos + 1
                    },
                    Ok(None) => opos >= rows.len() && final(self).leaf_pos() >= opos,
                    Err(_) => false,
                }
            },
    {
        proof {
            self.lemma_work_nonneg();
        }
        loop
            invariant
                self.data() == old(self).data(),
                self.psize() == old(self).psize(),
                self.root() == old(self).root(),
                self.budget_left() <= old(self).budget_left(),
                self.work() >= 0,
                old(self).leaf_ok() ==> *self == *old(self),
            decreases self.budget_left(), self.work(), self.stack().len(),
        {
            match self.next_elem() {
                Ok(Some(ScannerElem::Cursor(cursor))) => {
                    if self.budget == 0 {
                        return Err(
                            DbError::new(ErrorKind::Format, "table holds more rows than the file"),
                        );
                    }
                    self.budget = self.budget - 1;
                    return Ok(Some(cursor));
                },
                Ok(Some(ScannerElem::Page(page_num))) => {
                    match self.push_page(page_num as usize) {
                        Ok(_) => {},
                        Err(e) => {
                            return Err(e);
                        },
                    }
                },
                Ok(None) => {
                    if self.page_stack.len() > 1 {
                        let ghost s1 = self.page_stack@;
                        let _ = self.page_stack.pop();
                        proof {
                            assert(stack_work(s1) == stack_work(s1.drop_last()) + frame_work(
                                s1.last(),
                            ));
                        }
                    } else {
                        return Ok(None);
                    }
                },
                Err(e) => {
                    return Err(e);
                },
            }
            proof {
                self.lemma_work_nonneg();
            }
        }
    }
}

} // verus!
