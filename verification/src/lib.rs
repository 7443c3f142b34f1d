//! Storage layer of an event indexer for smart-contract chains: it derives a
//! relational schema from the watched contracts, encodes decoded values for
//! the database, and decides the order of the steps of every database call.

pub mod database;
pub mod generator;
pub mod helpers;
pub mod manifest;
