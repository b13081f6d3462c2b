use geyser_selectors::config::{ConfigError, Transactions};
use geyser_selectors::interface::{CompiledInstruction, InnerInstructions, TransactionInfo};
use geyser_selectors::keys::KeySet;
use geyser_selectors::selectors::transaction::{AccountScan, Pass, ProgramScan, TransactionError};
use geyser_selectors::selectors::TransactionSelector;
use solana_program::pubkey::Pubkey;

const WANTED: [u8; 32] = [0x77; 32];
const OTHER: [u8; 32] = [0x01; 32];
const THIRD: [u8; 32] = [0x02; 32];
const PAYER: [u8; 32] = [0x03; 32];

fn key_text(key: &[u8; 32]) -> String {
    Pubkey::new_from_array(*key).to_string()
}

fn transaction_selector(programs: &[[u8; 32]], pubkeys: &[[u8; 32]]) -> TransactionSelector {
    TransactionSelector::from_config(Transactions {
        programs: programs.iter().map(key_text).collect(),
        pubkeys: pubkeys.iter().map(key_text).collect(),
    })
    .unwrap()
}

fn calls(indices: &[u8]) -> Vec<CompiledInstruction> {
    indices.iter().map(|&i| CompiledInstruction { program_id_index: i, data: vec![i] }).collect()
}

fn transaction(keys: &[[u8; 32]], top: &[u8], inner: Option<&[&[u8]]>) -> TransactionInfo {
    TransactionInfo {
        account_keys: keys.to_vec(),
        instructions: calls(top),
        inner_instructions: inner.map(|groups| {
            groups.iter().map(|group| InnerInstructions { instructions: calls(group) }).collect()
        }),
    }
}

fn invalid(index: usize) -> Result<bool, TransactionError> {
    Err(TransactionError::InvalidProgramIndex { index })
}

#[test]
fn program_index_out_of_range_is_an_error() {
    let sel = transaction_selector(&[WANTED], &[]);
    assert_eq!(sel.is_selected(&transaction(&[OTHER], &[1], None)), invalid(1));
    assert_eq!(sel.is_selected(&transaction(&[OTHER, THIRD], &[0, 1, 2], None)), invalid(2));
    assert_eq!(sel.is_selected(&transaction(&[], &[0], None)), invalid(0));
    assert_eq!(sel.is_selected(&transaction(&[OTHER], &[255, 7], None)), invalid(255));
    assert_eq!(sel.is_selected(&transaction(&[OTHER], &[0, 0, 9, 0, 4], None)), invalid(9));
}

#[test]
fn inner_program_index_out_of_range_is_an_error() {
    let sel = transaction_selector(&[WANTED], &[]);
    assert_eq!(sel.is_selected(&transaction(&[OTHER], &[0], Some(&[&[0], &[3]]))), invalid(3));
    assert_eq!(sel.is_selected(&transaction(&[OTHER], &[], Some(&[&[], &[0, 1]]))), invalid(1));
}

#[test]
fn error_is_reported_even_when_an_account_is_allow_listed() {
    let sel = transaction_selector(&[WANTED], &[PAYER]);
    assert_eq!(sel.is_selected(&transaction(&[PAYER, OTHER], &[1, 5], None)), invalid(5));
}

#[test]
fn match_before_an_invalid_index_is_accepted() {
    let sel = transaction_selector(&[WANTED], &[]);
    assert_eq!(sel.is_selected(&transaction(&[OTHER, WANTED], &[1, 9], None)), Ok(true));
    assert_eq!(sel.is_selected(&transaction(&[WANTED], &[0], Some(&[&[9]]))), Ok(true));
    assert_eq!(sel.is_selected(&transaction(&[OTHER, WANTED], &[9, 1], None)), invalid(9));
    assert_eq!(sel.is_selected(&transaction(&[OTHER, WANTED], &[0, 9], Some(&[&[1]]))), invalid(9));
}

#[test]
fn invalid_index_is_ignored_without_program_allow_set() {
    let nothing = transaction_selector(&[], &[]);
    assert_eq!(nothing.is_selected(&transaction(&[OTHER], &[9], Some(&[&[200]]))), Ok(false));
    let by_account = transaction_selector(&[], &[PAYER]);
    assert_eq!(by_account.is_selected(&transaction(&[PAYER], &[9], None)), Ok(true));
    assert_eq!(by_account.is_selected(&transaction(&[OTHER], &[9], None)), Ok(false));
}

#[test]
fn match_in_an_inner_instruction_only_is_accepted() {
    let sel = transaction_selector(&[WANTED], &[]);
    let tx = transaction(&[PAYER, OTHER, WANTED, THIRD], &[1, 3], Some(&[&[1], &[3, 2]]));
    assert_eq!(sel.is_selected(&tx), Ok(true));
    let same_without_inner = transaction(&[PAYER, OTHER, WANTED, THIRD], &[1, 3], None);
    assert_eq!(sel.is_selected(&same_without_inner), Ok(false));
    let inner_without_match = transaction(&[PAYER, OTHER, WANTED, THIRD], &[1, 3], Some(&[&[1], &[3]]));
    assert_eq!(sel.is_selected(&inner_without_match), Ok(false));
}

#[test]
fn match_in_a_top_level_instruction_is_accepted() {
    let sel = transaction_selector(&[WANTED, THIRD], &[]);
    assert_eq!(sel.is_selected(&transaction(&[PAYER, WANTED], &[1], None)), Ok(true));
    assert_eq!(sel.is_selected(&transaction(&[PAYER, OTHER, THIRD], &[1, 1, 2], None)), Ok(true));
    assert_eq!(sel.is_selected(&transaction(&[PAYER, OTHER], &[1, 0], None)), Ok(false));
    assert_eq!(sel.is_selected(&transaction(&[PAYER, WANTED], &[], None)), Ok(false));
}

#[test]
fn account_allow_set_is_asked_when_no_program_matches() {
    let sel = transaction_selector(&[WANTED], &[PAYER]);
    assert_eq!(sel.is_selected(&transaction(&[OTHER, PAYER], &[0], None)), Ok(true));
    assert_eq!(sel.is_selected(&transaction(&[OTHER, THIRD], &[0], None)), Ok(false));
    assert_eq!(sel.is_selected(&transaction(&[OTHER, PAYER, PAYER, OTHER], &[], None)), Ok(true));
    let accounts_only = transaction_selector(&[], &[PAYER, THIRD]);
    assert_eq!(accounts_only.is_selected(&transaction(&[OTHER, OTHER, THIRD], &[0], None)), Ok(true));
    assert_eq!(accounts_only.is_selected(&transaction(&[OTHER, WANTED], &[0], None)), Ok(false));
    assert_eq!(accounts_only.is_selected(&transaction(&[], &[], None)), Ok(false));
}

#[test]
fn allow_listed_program_that_no_instruction_calls_does_not_match() {
    let sel = transaction_selector(&[WANTED], &[]);
    assert_eq!(sel.is_selected(&transaction(&[WANTED, OTHER], &[1], None)), Ok(false));
}

#[test]
fn repeated_references_are_resolved_once() {
    let sel = transaction_selector(&[WANTED], &[]);
    let tx = transaction(&[PAYER, OTHER], &[1, 1, 1, 1, 1, 1, 1, 1], None);
    assert_eq!(sel.scan_programs(&tx), ProgramScan { pass: Pass::NoMatch, lookups: 1 });
    assert_eq!(sel.is_selected(&tx), Ok(false));
    let many = transaction(&[PAYER, OTHER, THIRD], &[1; 200], Some(&[&[1; 50], &[2; 50], &[1, 2, 1, 2]]));
    assert_eq!(sel.scan_programs(&many), ProgramScan { pass: Pass::NoMatch, lookups: 2 });
    let mixed = transaction(&[PAYER, OTHER, THIRD], &[2, 1, 2, 0, 1, 0], Some(&[&[0, 1, 2]]));
    assert_eq!(sel.scan_programs(&mixed), ProgramScan { pass: Pass::NoMatch, lookups: 3 });
}

#[test]
fn scan_stops_at_the_first_reference_that_decides() {
    let sel = transaction_selector(&[WANTED], &[]);
    let keys = [PAYER, OTHER, WANTED, THIRD];
    let tx = transaction(&keys, &[1, 1, 3, 1, 2, 0], None);
    assert_eq!(sel.scan_programs(&tx), ProgramScan { pass: Pass::Match, lookups: 3 });
    let tx = transaction(&keys, &[2, 2, 2], None);
    assert_eq!(sel.scan_programs(&tx), ProgramScan { pass: Pass::Match, lookups: 1 });
    let tx = transaction(&keys, &[0, 0, 1, 0], Some(&[&[1, 0], &[9, 2]]));
    assert_eq!(sel.scan_programs(&tx), ProgramScan { pass: Pass::Invalid { index: 9 }, lookups: 3 });
    let tx = transaction(&keys, &[], None);
    assert_eq!(sel.scan_programs(&tx), ProgramScan { pass: Pass::NoMatch, lookups: 0 });
    let tx = transaction(&keys, &[], Some(&[]));
    assert_eq!(sel.scan_programs(&tx), ProgramScan { pass: Pass::NoMatch, lookups: 0 });
}

#[test]
fn nothing_is_resolved_without_program_allow_set() {
    let sel = transaction_selector(&[], &[PAYER]);
    let tx = transaction(&[PAYER, OTHER], &[1, 0, 9], Some(&[&[200]]));
    assert_eq!(sel.scan_programs(&tx), ProgramScan { pass: Pass::NoMatch, lookups: 0 });
}

#[test]
fn repeated_account_keys_are_looked_up_once() {
    let sel = transaction_selector(&[], &[WANTED]);
    let tx = transaction(&[OTHER, OTHER, OTHER, OTHER, OTHER], &[], None);
    assert_eq!(sel.scan_accounts(&tx), AccountScan { found: false, lookups: 1 });
    let tx = transaction(&[OTHER, THIRD, OTHER, PAYER, THIRD, PAYER], &[], None);
    assert_eq!(sel.scan_accounts(&tx), AccountScan { found: false, lookups: 3 });
    let tx = transaction(&[OTHER, OTHER, THIRD, WANTED, PAYER, WANTED], &[], None);
    assert_eq!(sel.scan_accounts(&tx), AccountScan { found: true, lookups: 3 });
    let tx = transaction(&[WANTED, OTHER], &[], None);
    assert_eq!(sel.scan_accounts(&tx), AccountScan { found: true, lookups: 1 });
    let tx = transaction(&[], &[], None);
    assert_eq!(sel.scan_accounts(&tx), AccountScan { found: false, lookups: 0 });
}

#[test]
fn nothing_is_looked_up_without_account_allow_set() {
    let sel = transaction_selector(&[WANTED], &[]);
    let tx = transaction(&[OTHER, THIRD, WANTED], &[], None);
    assert_eq!(sel.scan_accounts(&tx), AccountScan { found: false, lookups: 0 });
}

#[test]
fn transaction_selector_over_given_key_sets() {
    let sel = TransactionSelector::new(KeySet::from_keys(&[WANTED]), KeySet::from_keys(&[PAYER]));
    assert!(!sel.is_empty());
    assert_eq!(sel.is_selected(&transaction(&[OTHER, WANTED], &[1], None)), Ok(true));
    assert_eq!(sel.is_selected(&transaction(&[OTHER, PAYER], &[0], None)), Ok(true));
    assert_eq!(sel.is_selected(&transaction(&[OTHER, THIRD], &[0], None)), Ok(false));
    assert_eq!(sel.is_selected(&transaction(&[OTHER, THIRD], &[2], None)), invalid(2));
    assert!(TransactionSelector::new(KeySet::from_keys(&[]), KeySet::from_keys(&[])).is_empty());
}

#[test]
fn program_references_are_collected_in_order() {
    let tx = transaction(&[PAYER], &[4, 0, 4], Some(&[&[7], &[], &[0, 9]]));
    assert_eq!(tx.program_references(), vec![4, 0, 4, 7, 0, 9]);
    let tx = transaction(&[PAYER], &[4, 0, 4], None);
    assert_eq!(tx.program_references(), vec![4, 0, 4]);
    let tx = transaction(&[PAYER], &[], Some(&[&[255]]));
    assert_eq!(tx.program_references(), vec![255]);
}

#[test]
fn transaction_selector_is_empty_without_programs_and_accounts() {
    let sel = transaction_selector(&[], &[]);
    assert!(sel.is_empty());
    assert_eq!(sel.is_selected(&transaction(&[WANTED], &[0], None)), Ok(false));
    assert!(!transaction_selector(&[WANTED], &[]).is_empty());
    assert!(!transaction_selector(&[], &[PAYER]).is_empty());
}

#[test]
fn transaction_lists_must_parse() {
    let good = key_text(&WANTED);
    let made = TransactionSelector::from_config(Transactions {
        programs: vec!["***".to_string()],
        pubkeys: vec![good.clone()],
    });
    assert_eq!(made.err(), Some(ConfigError::TransactionPrograms));
    let made = TransactionSelector::from_config(Transactions {
        programs: vec![good.clone()],
        pubkeys: vec![good.clone(), "***".to_string()],
    });
    assert_eq!(made.err(), Some(ConfigError::TransactionPubkeys));
    let made = TransactionSelector::from_config(Transactions {
        programs: vec!["***".to_string()],
        pubkeys: vec!["***".to_string()],
    });
    assert_eq!(made.err(), Some(ConfigError::TransactionPrograms));
}
