//! Cells: the scalar values that one row of a sheet is made of.

use vstd::prelude::*;

verus! {

/// A number in a cell. `Float` holds the bits of a double.
#[derive(Clone, Copy, Debug, PartialEq, Eq, Structural)]
pub enum Number {
    PosInt(u64),
    NegInt(i64),
    Float(u64),
}

/// One cell. `Other` stands for what no scalar can be read from: a nested
/// list or a nested record.
#[derive(Clone, Debug)]
pub enum Cell {
    Null,
    Bool(bool),
    Number(Number),
    String(String),
    Other,
}

/// A cell with its text as a character sequence.
pub enum CellView {
    Null,
    Bool(bool),
    Number(Number),
    String(Seq<char>),
    Other,
}

impl View for Cell {
    type V = CellView;

    open spec fn view(&self) -> CellView {
        match self {
            Cell::Null => CellView::Null,
            Cell::Bool(b) => CellView::Bool(*b),
            Cell::Number(n) => CellView::Number(*n),
            Cell::String(s) => CellView::String(s@),
            Cell::Other => CellView::Other,
        }
    }
}

/// The cells of a row, each with its text as a character sequence.
pub open spec fn row_view(row: Seq<Cell>) -> Seq<CellView> {
    Seq::new(row.len(), |i: int| row[i]@)
}

/// The rows of a table, each as `row_view` gives it.
pub open spec fn rows_view(rows: Seq<Vec<Cell>>) -> Seq<Seq<CellView>> {
    Seq::new(rows.len(), |i: int| row_view(rows[i]@))
}

/// Whether a cell counts as empty: no value, or an empty text.
pub open spec fn is_blank(c: CellView) -> bool {
    match c {
        CellView::Null => true,
        CellView::String(s) => s.len() == 0,
        _ => false,
    }
}

} // verus!
