//! Wide references: a reference to a run of values that carries one word of
//! metadata of the caller's choice, and a matrix with its borrowed views built
//! on it, whose two dimensions ride packed in that word.

pub mod error;
pub mod fat;
pub mod half;
pub mod matrix;
pub mod meta;
pub mod pair;

pub use error::Error;
pub use fat::Fat;
pub use half::Halfsize;
pub use matrix::{Mat, MatMut, Matrix};
pub use meta::Meta;
pub use pair::Pair;
