pub mod laws;
pub mod scanner;
pub mod token;
