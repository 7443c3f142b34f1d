//! What goes to the database and how: value encoding, schema and statement
//! text, and the order of the steps of each call.

pub mod client;
pub mod postgres;
pub mod schema_model;
pub mod sql_type_wrapper;
