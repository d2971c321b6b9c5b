//! Pages of the database file: the typed page model, the page decoder and
//! pager, and the positioned page used by the scanner.

pub mod page_utils;
pub mod pager;
pub mod positioned_page;
