//! A fixed-size two-dimensional grid whose rows are padded with default
//! values up to a declared width.

pub mod arrays;

pub use arrays::{init, init_all_with, Array};
