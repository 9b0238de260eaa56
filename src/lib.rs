pub mod balances;
pub mod proof_of_existence;
pub mod runtime;
pub mod support;
pub mod system;
pub mod table;
pub mod types;

pub use runtime::{Runtime, RuntimeCall};
