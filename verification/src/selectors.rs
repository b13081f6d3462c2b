//! The three selectors: over account updates, over single instructions and
//! over whole transactions.

pub mod account;
pub mod instruction;
pub mod transaction;

pub use account::AccountSelector;
pub use instruction::InstructionSelector;
pub use transaction::TransactionSelector;
