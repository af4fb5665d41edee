pub mod types;
pub mod tokenize;
pub mod pretty;
pub mod flat;
pub mod helpers;
pub mod word;

pub use flat::{tokenize, tokenize_arithmetic, Token, WordPart};
