//! A compiler from axis patterns such as `(a b) c -> c a b` to plans of array
//! operations.

pub mod axis;
pub mod backend;
pub mod compile;
pub mod error;
pub mod index;
pub mod laws;
pub mod layout;
pub mod left;
pub mod names;
pub mod operation;
pub mod plan;
pub mod reduce;
pub mod right;
pub mod steps;
pub mod token;

pub use axis::Composition;
pub use axis::Decomposition;
pub use compile::compile;
pub use compile::compile_tokens;
pub use error::ErrorKind;
pub use error::PatternError;
pub use index::Index;
pub use left::parse_decomposition;
pub use operation::Operation;
pub use plan::Plan;
pub use reduce::parse_reduce;
pub use right::parse_composition_permute_repeat;
pub use steps::Step;
pub use token::tokenize;
pub use token::Token;
