use vstd::prelude::*;

verus! {

/// Why a query did not produce a table.
#[derive(Debug, Clone, Copy, PartialEq, Eq, Structural)]
pub enum QueryError {
    /// A column that the query needs was missing from the store's answer.
    BadAccess,
    /// The store holds no visible data for the component at the queried time.
    PrimaryNotFound,
    /// The columns handed over could not form a table: the instance-key
    /// column and the value column differ in length.
    TableError,
}

impl QueryError {
    /// A short description of the error.
    pub fn message(&self) -> String {
        match self {
            QueryError::BadAccess => String::from_str("Tried to access a column that doesn't exist"),
            QueryError::PrimaryNotFound => String::from_str("Could not find primary"),
            QueryError::TableError => String::from_str("Could not build a table from the columns"),
        }
    }
}

} // verus!
