//! The stored records and the schema migrations.

pub mod migrations;
pub mod schema;
