pub mod accounts;
pub mod errors;
pub mod laws;
pub mod tx;
pub mod types;
