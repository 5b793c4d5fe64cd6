//! Memorable password generation: dictionary words, case transformations,
//! digit groups and separators, put together under configurable rules.
use vstd::prelude::*;

pub mod dictionary;
pub mod generator;
pub mod laws;
pub mod random;
pub mod rules;
pub mod separator;
pub mod text;
pub mod transformation;

pub use dictionary::{Dictionary, DictionaryError};
pub use generator::{GenerateError, Generator};
pub use rules::{ConfigError, Rules, Separator};
pub use separator::SeparatorSession;
pub use transformation::Transformation;

verus! {

} // verus!
