//! Records and their traversal: the record decoder, typed values, the
//! cursor over one decoded record, and the B-tree scanner.

pub mod cursor;
pub mod record;
pub mod scanner;
pub mod value;
