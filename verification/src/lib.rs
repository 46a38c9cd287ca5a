pub mod engine;
pub mod hashing;
pub mod matcher;
pub mod store;
