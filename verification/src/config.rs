//! What the selectors are built from: lists of base58 identifiers and a few
//! switches.

use vstd::prelude::*;

verus! {

/// The configuration of an account selector.
pub struct Accounts {
    /// Owners whose accounts are wanted.
    pub owners: Vec<String>,
    /// Whether every token account is wanted, so that none is screened out.
    pub all_tokens: bool,
    /// Accounts that are wanted themselves.
    pub pubkeys: Vec<String>,
    /// Which phase updates are wanted from: only startup (`true`), only
    /// normal operation (`false`), or both.
    pub startup: Option<bool>,
}

/// The configuration of an instruction selector.
pub struct Instructions {
    /// Programs whose instructions are wanted.
    pub programs: Vec<String>,
    /// Whether every call of the token program is wanted, not only burns of
    /// one unit.
    pub all_token_calls: bool,
}

/// The configuration of a transaction selector.
pub struct Transactions {
    /// Programs whose transactions are wanted.
    pub programs: Vec<String>,
    /// Accounts whose transactions are wanted.
    pub pubkeys: Vec<String>,
}

/// Which list of a configuration held a text that denotes no identifier.
#[derive(Debug, Clone, Copy, PartialEq, Eq, Structural)]
pub enum ConfigError {
    AccountOwners,
    AccountPubkeys,
    InstructionPrograms,
    TransactionPrograms,
    TransactionPubkeys,
}

} // verus!
