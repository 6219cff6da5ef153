//! What can be wrong with a statement.

use vstd::prelude::*;

verus! {

/// A statement that cannot be read. Rows and pages are counted from 0: a row
/// is a data row of the table, the header row not counted; a node is a child
/// of a page.
#[derive(Clone, Copy, Debug, PartialEq, Eq)]
pub enum MalformedInput {
    /// The text is no delimited table.
    Table,
    /// The header row lacks a column or names one twice.
    Header,
    /// A row has too few columns, or not as many as the first row of its
    /// table.
    Columns { row: usize },
    /// A date of a row cannot be read.
    Date { row: usize },
    /// A number of a row cannot be read, or lies outside the range of amounts.
    Number { row: usize },
    /// The text is no document of nested elements.
    Document,
    /// A page is no element.
    Page { page: usize },
    /// A child of a page is no element.
    Node { page: usize, node: usize },
}

} // verus!
