//! Rows to the PostgreSQL `COPY ... (FORMAT binary)` stream.

pub mod header;
pub mod item;
pub mod trailer;

pub mod time;
pub mod uuid;

pub mod blob;

pub mod wire;
