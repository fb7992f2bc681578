//! Assembles the components logged for one entity at one query time into a
//! single table keyed by instance.
//!
//! The store is an outside service: what it answers for one component is
//! handed to this library as plain columns ([`StoreColumns`]). The library
//! builds a component table from that answer, gives it a sorted instance-key
//! column, and joins the requested components onto the rows of the primary.
pub mod error;
pub mod laws;
pub mod query;
pub mod table;

pub use error::QueryError;
pub use query::{
    join_cells, query_entity_with_primary, ComponentAnswer, EntityView, JoinedColumn,
};
pub use table::{
    add_instances_and_sort_if_needed, get_component_with_instances, ComponentData, ComponentTable,
    StoreColumns,
};
