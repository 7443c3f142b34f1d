//! The project description: which contracts are watched, and where.

pub mod yaml;
