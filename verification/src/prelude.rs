//! The capabilities, for one `use`.

pub use crate::{Table, TableClear, TableExtend, TableFetch, TableRead, TableUpdate, TableVersion};
