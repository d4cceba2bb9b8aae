pub mod commands;
pub mod export;
