//! Search for a Chia wallet address that ends in a chosen suffix.

pub mod address;
pub mod bls;
pub mod digest;
pub mod entropy;
pub mod key;
pub mod search;
pub mod text;
pub mod variants;

pub use key::Key;
pub use variants::generate_variants;
