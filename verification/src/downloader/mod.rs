//! Collecting and checking the body of a ranged HTTP download.

pub mod http;
