pub mod levels;
pub mod terminal;
