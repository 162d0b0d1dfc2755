pub mod cli;
pub mod error;
pub mod moss;
pub mod providers;
pub mod text;
