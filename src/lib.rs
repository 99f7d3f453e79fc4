pub mod classify;
pub mod config;
pub mod date;
pub mod range;
pub mod results;
pub mod text;
