//! Document synchronisation and syntax queries for Fluent Bit configuration files.

pub mod buffer;
pub mod completion;
pub mod dist;
pub mod document;
pub mod encoding;
pub mod lines;
pub mod position;
pub mod query;
pub mod rope;
pub mod schema;
pub mod section;
pub mod store;
pub mod syntax;
pub mod text;
