//! What is kept in the database.

pub mod database;
