//! Utilities: splitting downloads into byte ranges and handing them out.

pub mod distributor;
