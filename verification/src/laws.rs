//! What the library's operations promise, stated over their inputs and results in elementary
//! terms: integers, characters and literal texts.

pub mod indicator;
pub mod numbers;
pub mod quotas;
pub mod requests;
pub mod texts;
