pub mod utils;
pub mod buffer;
pub mod rerender;
pub mod keys;
