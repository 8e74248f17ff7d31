pub mod cursor;
pub mod laws;
pub mod rule;
pub mod scanner;
pub mod token;
pub mod token_type;
