//! The readers, one module for each table.

pub mod cff;
pub mod os_2;
