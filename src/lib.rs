//! A database administration interface generated from a schema: column type
//! mapping, reverse foreign-key links, SQL statement text, the route table,
//! the list pages and the decoding of submitted forms.
pub mod text;
pub mod schema;
pub mod reverse;
pub mod sql;
pub mod routes;
pub mod site;
pub mod numbers;
pub mod records;
pub mod page;
pub mod catalog;
