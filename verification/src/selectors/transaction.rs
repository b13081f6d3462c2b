//! Selection of whole transactions: by the programs their instructions call
//! and by the accounts they refer to.

use crate::config::{ConfigError, Transactions};
use crate::interface::{
    inner_program_indices, program_indices, referenced_programs, TransactionInfo,
};
use crate::keys::{all_denote, denoted, KeySet, Pubkey};
use crate::search::{
    first_position, is_first, lemma_first_is_unique, lemma_search_ends, lemma_search_stops,
    lemma_some_wanted, looked_at,
};
use crate::unique::{first_occurrences, key_views, unique_indices, unique_keys};
use vstd::prelude::*;

verus! {

/// Why a transaction could not be classified.
#[derive(Debug, Clone, Copy, PartialEq, Eq, Structural)]
pub enum TransactionError {
    /// An instruction names its program by an index that the table of
    /// account keys does not have.
    InvalidProgramIndex { index: usize },
}

/// What the scan of a transaction's program references found.
#[derive(Debug, Clone, Copy, PartialEq, Eq, Structural)]
pub enum Pass {
    /// Every reference resolves, and none to an allow-listed program.
    NoMatch,
    /// A reference resolves to an allow-listed program.
    Match,
    /// A reference does not resolve.
    Invalid { index: usize },
}

/// The result of the scan of a transaction's program references, with the
/// number of indices that were resolved against the table of account keys
/// on the way.
#[derive(Debug, Clone, Copy, PartialEq, Eq, Structural)]
pub struct ProgramScan {
    pub pass: Pass,
    pub lookups: usize,
}

/// The result of the scan of a transaction's account keys, with the number
/// of keys that were looked up in the allow-set on the way.
#[derive(Debug, Clone, Copy, PartialEq, Eq, Structural)]
pub struct AccountScan {
    pub found: bool,
    pub lookups: usize,
}

/// Filter over whole transactions.
#[derive(Debug)]
pub struct TransactionSelector {
    programs: KeySet,
    pubkeys: KeySet,
}

/// Whether a program reference ends the scan: it does not resolve, or it
/// resolves to an allow-listed program.
pub open spec fn decides(programs: Set<Seq<u8>>, keys: Seq<Pubkey>, index: usize) -> bool {
    index >= keys.len() || programs.contains(keys[index as int]@)
}

/// The program references that end the scan.
pub open spec fn deciding(programs: Set<Seq<u8>>, keys: Seq<Pubkey>) -> spec_fn(usize) -> bool {
    |index: usize| decides(programs, keys, index)
}

/// The keys that are in the allow-set.
pub open spec fn listed(pubkeys: Set<Seq<u8>>) -> spec_fn(Seq<u8>) -> bool {
    |key: Seq<u8>| pubkeys.contains(key)
}

/// What a scan of `indices` finds: the first reference that does not resolve
/// or resolves to an allow-listed program decides, and references behind it
/// are not looked at.
pub open spec fn pass_of(programs: Set<Seq<u8>>, keys: Seq<Pubkey>, indices: Seq<usize>) -> Pass {
    match first_position(indices, deciding(programs, keys)) {
        None => Pass::NoMatch,
        Some(at) => if indices[at] < keys.len() {
            Pass::Match
        } else {
            Pass::Invalid { index: indices[at] }
        },
    }
}

/// Whether some key of the table is in the allow-set.
pub open spec fn refers_to(pubkeys: Set<Seq<u8>>, keys: Seq<Pubkey>) -> bool {
    exists|i: int| 0 <= i < keys.len() && pubkeys.contains(#[trigger] keys[i]@)
}

impl TransactionSelector {
    /// The programs whose transactions are wanted.
    pub closed spec fn programs(&self) -> Set<Seq<u8>> {
        self.programs@
    }

    /// The accounts whose transactions are wanted.
    pub closed spec fn pubkeys(&self) -> Set<Seq<u8>> {
        self.pubkeys@
    }

    /// What the program gate finds. With an empty allow-set of programs the
    /// gate is skipped and finds nothing.
    pub open spec fn gate(&self, tx: TransactionInfo) -> Pass {
        if self.programs() == Set::<Seq<u8>>::empty() {
            Pass::NoMatch
        } else {
            pass_of(self.programs(), tx.account_keys@, referenced_programs(tx))
        }
    }

    /// The distinct program indices that the program gate resolves.
    pub open spec fn resolved(&self, tx: TransactionInfo) -> Set<usize> {
        if self.programs() == Set::<Seq<u8>>::empty() {
            Set::empty()
        } else {
            looked_at(referenced_programs(tx), deciding(self.programs(), tx.account_keys@))
        }
    }

    /// The distinct account keys that a scan of the account keys looks up
    /// in the allow-set of accounts.
    pub open spec fn looked_up(&self, tx: TransactionInfo) -> Set<Seq<u8>> {
        if self.pubkeys() == Set::<Seq<u8>>::empty() {
            Set::empty()
        } else {
            looked_at(key_views(tx.account_keys@), listed(self.pubkeys()))
        }
    }

    /// How a transaction is classified: a program reference that does not
    /// resolve is an error, unless a match came first; a match is accepted;
    /// otherwise the transaction is accepted exactly when one of its account
    /// keys is allow-listed.
    pub open spec fn outcome(&self, tx: TransactionInfo) -> Result<bool, TransactionError> {
        match self.gate(tx) {
            Pass::Match => Ok(true),
            Pass::Invalid { index } => Err(TransactionError::InvalidProgramIndex { index }),
            Pass::NoMatch => Ok(refers_to(self.pubkeys(), tx.account_keys@)),
        }
    }

    /// The selector over the given allow-sets.
    pub fn new(programs: KeySet, pubkeys: KeySet) -> (selector: Self)
        ensures
            selector.programs() == programs@,
            selector.pubkeys() == pubkeys@,
    {
        TransactionSelector { programs, pubkeys }
    }

    /// Builds the selector that a configuration describes. Fails when a
    /// text of either list denotes no identifier; the programs are looked at
    /// first.
    pub fn from_config(config: Transactions) -> (made: Result<Self, ConfigError>)
        ensures
            made is Ok <==> all_denote(config.programs@) && all_denote(config.pubkeys@),
            made matches Ok(selector) ==> {
                &&& selector.programs() == denoted(config.programs@)
                &&& selector.pubkeys() == denoted(config.pubkeys@)
            },
            made matches Err(e) ==> e == (if all_denote(config.programs@) {
                ConfigError::TransactionPubkeys
            } else {
                ConfigError::TransactionPrograms
            }),
    {
        let programs = match KeySet::parse_all(&config.programs) {
            Some(set) => set,
            None => {
                return Err(ConfigError::TransactionPrograms);
            },
        };
        let pubkeys = match KeySet::parse_all(&config.pubkeys) {
            Some(set) => set,
            None => {
                return Err(ConfigError::TransactionPubkeys);
            },
        };
        Ok(TransactionSelector::new(programs, pubkeys))
    }

    /// Whether the selector selects nothing: neither a program nor an
    /// account is allow-listed.
    pub fn is_empty(&self) -> (empty: bool)
        ensures
            empty == (self.programs() == Set::<Seq<u8>>::empty() && self.pubkeys() == Set::<
                Seq<u8>,
            >::empty()),
            empty ==> forall|tx: TransactionInfo|
                #[trigger] self.outcome(tx) == Ok::<bool, TransactionError>(false),
    {
        self.programs.is_empty() && self.pubkeys.is_empty()
    }

    /// Scans the program references of a transaction against the allow-set
    /// of programs. Each distinct index is resolved at most once, in the
    /// order of first reference, and the scan stops at the first reference
    /// that decides. However often an index is referred to, no more indices
    /// are resolved than the transaction refers to distinct ones.
    pub fn scan_programs(&self, tx: &TransactionInfo) -> (scan: ProgramScan)
        ensures
            scan.pass == self.gate(*tx),
            scan.lookups == self.resolved(*tx).len(),
            scan.lookups <= referenced_programs(*tx).to_set().len(),
    {
        if self.programs.is_empty() {
            return ProgramScan { pass: Pass::NoMatch, lookups: 0 };
        }
        let indices = tx.program_references();
        let distinct = unique_indices(&indices);
        let keys = &tx.account_keys;
        let ghost wanted = deciding(self.programs(), keys@);
        let mut n: usize = 0;
        while n < distinct.len()
            invariant
                n <= distinct@.len(),
                keys@ == tx.account_keys@,
                indices@ == referenced_programs(*tx),
                distinct@ == first_occurrences(indices@),
                wanted == deciding(self.programs(), keys@),
                self.programs() != Set::<Seq<u8>>::empty(),
                forall|j: int| 0 <= j < n ==> !wanted(#[trigger] distinct@[j]),
            decreases distinct@.len() - n,
        {
            let index = distinct[n];
            if index >= keys.len() {
                proof {
                    lemma_search_stops(indices@, wanted, n as int);
                }
                return ProgramScan { pass: Pass::Invalid { index }, lookups: n + 1 };
            }
            if self.programs.contains(keys[index].as_slice()) {
                proof {
                    lemma_search_stops(indices@, wanted, n as int);
                }
                return ProgramScan { pass: Pass::Match, lookups: n + 1 };
            }
            n += 1;
        }
        proof {
            lemma_search_ends(indices@, wanted);
        }
        ProgramScan { pass: Pass::NoMatch, lookups: n }
    }

    /// Scans the account keys of a transaction against the allow-set of
    /// accounts. Each distinct key is looked up at most once, in the order
    /// of first occurrence, and the scan stops at the first key found. With
    /// an empty allow-set nothing is looked up.
    pub fn scan_accounts(&self, tx: &TransactionInfo) -> (scan: AccountScan)
        ensures
            scan.found == refers_to(self.pubkeys(), tx.account_keys@),
            scan.lookups == self.looked_up(*tx).len(),
            scan.lookups <= key_views(tx.account_keys@).to_set().len(),
    {
        if self.pubkeys.is_empty() {
            return AccountScan { found: false, lookups: 0 };
        }
        let keys = &tx.account_keys;
        let distinct = unique_keys(keys);
        let ghost wanted = listed(self.pubkeys());
        let mut n: usize = 0;
        while n < distinct.len()
            invariant
                n <= distinct@.len(),
                keys@ == tx.account_keys@,
                key_views(distinct@) == first_occurrences(key_views(keys@)),
                wanted == listed(self.pubkeys()),
                self.pubkeys() != Set::<Seq<u8>>::empty(),
                forall|j: int| 0 <= j < n ==> !wanted(#[trigger] key_views(distinct@)[j]),
            decreases distinct@.len() - n,
        {
            assert(key_views(distinct@)[n as int] == distinct@[n as int]@);
            if self.pubkeys.contains(distinct[n].as_slice()) {
                proof {
                    lemma_search_stops(key_views(keys@), wanted, n as int);
                    let at = first_position(key_views(keys@), wanted)->Some_0;
                    assert(is_first(key_views(keys@), wanted, at));
                    assert(self.pubkeys().contains(keys@[at]@));
                }
                return AccountScan { found: true, lookups: n + 1 };
            }
            n += 1;
        }
        proof {
            lemma_search_ends(key_views(keys@), wanted);
            assert forall|i: int| 0 <= i < keys@.len() implies !self.pubkeys().contains(
                #[trigger] keys@[i]@,
            ) by {
                assert(!wanted(key_views(keys@)[i]));
            }
        }
        AccountScan { found: false, lookups: n }
    }

    /// Classifies a transaction.
    pub fn is_selected(&self, tx: &TransactionInfo) -> (selected: Result<bool, TransactionError>)
        ensures
            selected == self.outcome(*tx),
    {
        match self.scan_programs(tx).pass {
            Pass::Match => Ok(true),
            Pass::Invalid { index } => Err(TransactionError::InvalidProgramIndex { index }),
            Pass::NoMatch => Ok(self.scan_accounts(tx).found),
        }
    }
}

/// With programs allow-listed, a transaction in which some program reference
/// does not resolve is never rejected. It is an error, unless a reference
/// to an allow-listed program stands before every such reference, and then
/// it is accepted. Where nothing before the reference at `at` decides, the
/// error names that reference's index.
pub proof fn lemma_unresolved_reference(selector: TransactionSelector, tx: TransactionInfo, at: int)
    requires
        selector.programs() != Set::<Seq<u8>>::empty(),
        0 <= at < referenced_programs(tx).len(),
        referenced_programs(tx)[at] >= tx.account_keys@.len(),
    ensures
        selector.outcome(tx) != Ok::<bool, TransactionError>(false),
        selector.outcome(tx) is Err || selector.gate(tx) == Pass::Match,
        is_first(referenced_programs(tx), deciding(selector.programs(), tx.account_keys@), at)
            ==> selector.outcome(tx) == Err::<bool, TransactionError>(
            TransactionError::InvalidProgramIndex { index: referenced_programs(tx)[at] },
        ),
{
    let wanted = deciding(selector.programs(), tx.account_keys@);
    let first = lemma_some_wanted(referenced_programs(tx), wanted, at);
    if is_first(referenced_programs(tx), wanted, at) {
        lemma_first_is_unique(referenced_programs(tx), wanted, at);
    }
}

/// A reference to an allow-listed program is accepted wherever it stands,
/// provided every reference before it resolves.
pub proof fn lemma_match_accepts(selector: TransactionSelector, tx: TransactionInfo, at: int)
    requires
        0 <= at < referenced_programs(tx).len(),
        referenced_programs(tx)[at] < tx.account_keys@.len(),
        selector.programs().contains(tx.account_keys@[referenced_programs(tx)[at] as int]@),
        forall|j: int| 0 <= j < at ==> referenced_programs(tx)[j] < tx.account_keys@.len(),
    ensures
        selector.outcome(tx) == Ok::<bool, TransactionError>(true),
{
    let wanted = deciding(selector.programs(), tx.account_keys@);
    let first = lemma_some_wanted(referenced_programs(tx), wanted, at);
}

/// A transaction is accepted when its only reference to an allow-listed
/// program stands in an inner instruction: no top-level instruction calls
/// an allow-listed program, every reference before the inner one resolves,
/// and the inner one resolves to an allow-listed program.
pub proof fn lemma_inner_match_accepts(selector: TransactionSelector, tx: TransactionInfo, at: int)
    requires
        tx.inner_instructions is Some,
        forall|i: int|
            0 <= i < tx.instructions@.len() ==> !decides(
                selector.programs(),
                tx.account_keys@,
                #[trigger] program_indices(tx.instructions@)[i],
            ),
        0 <= at < inner_program_indices(tx.inner_instructions->Some_0@).len(),
        forall|j: int|
            0 <= j < at ==> (#[trigger] inner_program_indices(tx.inner_instructions->Some_0@)[j])
                < tx.account_keys@.len(),
        inner_program_indices(tx.inner_instructions->Some_0@)[at] < tx.account_keys@.len(),
        selector.programs().contains(
            tx.account_keys@[inner_program_indices(tx.inner_instructions->Some_0@)[at] as int]@,
        ),
    ensures
        selector.outcome(tx) == Ok::<bool, TransactionError>(true),
{
    let top = program_indices(tx.instructions@);
    let inner = inner_program_indices(tx.inner_instructions->Some_0@);
    let all = referenced_programs(tx);
    assert(all == top + inner);
    assert forall|j: int| 0 <= j < top.len() + at implies all[j] < tx.account_keys@.len() by {
        if j < top.len() {
            assert(!decides(selector.programs(), tx.account_keys@, top[j]));
        } else {
            assert(all[j] == inner[j - top.len()]);
        }
    }
    assert(all[top.len() + at] == inner[at]);
    lemma_match_accepts(selector, tx, top.len() + at);
}

} // verus!
