use geyser_selectors::config::{ConfigError, Instructions};
use geyser_selectors::interface::CompiledInstruction;
use geyser_selectors::keys::{bytes_equal, KeySet};
use geyser_selectors::selectors::InstructionSelector;
use geyser_selectors::token::{decode_burn, BURN_TAG, TOKEN_KEY};
use solana_program::pubkey::Pubkey;
use spl_token::instruction::TokenInstruction;

const PROGRAM_P: [u8; 32] = [0x50; 32];
const PROGRAM_Q: [u8; 32] = [0x51; 32];

fn program_text(key: &[u8; 32]) -> String {
    Pubkey::new_from_array(*key).to_string()
}

fn instruction_selector(programs: &[[u8; 32]], all_token_calls: bool) -> InstructionSelector {
    InstructionSelector::from_config(Instructions {
        programs: programs.iter().map(program_text).collect(),
        all_token_calls,
    })
    .unwrap()
}

fn with_payload(data: Vec<u8>) -> CompiledInstruction {
    CompiledInstruction { program_id_index: 0, data }
}

#[test]
fn burn_of_one_unit_is_the_only_token_call_selected() {
    let sel = instruction_selector(&[TOKEN_KEY], false);
    let burn_one = TokenInstruction::Burn { amount: 1 }.pack();
    assert_eq!(burn_one, vec![8, 1, 0, 0, 0, 0, 0, 0, 0]);
    assert!(sel.is_selected(&TOKEN_KEY, &with_payload(burn_one)));
    assert!(sel.is_selected(&TOKEN_KEY, &with_payload(vec![8, 1, 0, 0, 0, 0, 0, 0, 0])));
}

#[test]
fn other_token_calls_are_rejected() {
    let sel = instruction_selector(&[TOKEN_KEY], false);
    let rejected: Vec<Vec<u8>> = vec![
        TokenInstruction::Burn { amount: 0 }.pack(),
        TokenInstruction::Burn { amount: 2 }.pack(),
        TokenInstruction::Burn { amount: 256 }.pack(),
        TokenInstruction::Burn { amount: 257 }.pack(),
        TokenInstruction::Burn { amount: 1 << 56 }.pack(),
        TokenInstruction::Burn { amount: u64::MAX }.pack(),
        TokenInstruction::Transfer { amount: 1 }.pack(),
        TokenInstruction::MintTo { amount: 1 }.pack(),
        TokenInstruction::Approve { amount: 1 }.pack(),
        TokenInstruction::BurnChecked { amount: 1, decimals: 0 }.pack(),
        TokenInstruction::Revoke.pack(),
        vec![],
        vec![8],
        vec![8, 1],
        vec![8, 1, 0, 0, 0, 0, 0, 0],
        vec![8, 1, 0, 0, 0, 0, 0, 0, 0, 0],
        vec![8, 1, 0, 0, 0, 0, 0, 0, 1],
        vec![8, 0, 1, 0, 0, 0, 0, 0, 0],
        vec![7, 1, 0, 0, 0, 0, 0, 0, 0],
        vec![9, 1, 0, 0, 0, 0, 0, 0, 0],
        vec![1, 8, 0, 0, 0, 0, 0, 0, 0],
    ];
    for payload in rejected {
        assert!(!sel.is_selected(&TOKEN_KEY, &with_payload(payload)));
    }
}

#[test]
fn every_token_call_is_selected_when_all_are_wanted() {
    let sel = instruction_selector(&[TOKEN_KEY], true);
    assert!(sel.is_selected(&TOKEN_KEY, &with_payload(vec![])));
    assert!(sel.is_selected(&TOKEN_KEY, &with_payload(TokenInstruction::Burn { amount: 2 }.pack())));
    assert!(sel.is_selected(&TOKEN_KEY, &with_payload(TokenInstruction::Transfer { amount: 9 }.pack())));
    assert!(sel.is_selected(&TOKEN_KEY, &with_payload(vec![8, 1, 0, 0, 0, 0, 0, 0, 0])));
}

#[test]
fn program_outside_the_allow_set_is_rejected() {
    let sel = instruction_selector(&[PROGRAM_P], false);
    assert!(!sel.is_selected(&PROGRAM_Q, &with_payload(vec![1, 2, 3])));
    assert!(!sel.is_selected(&TOKEN_KEY, &with_payload(vec![8, 1, 0, 0, 0, 0, 0, 0, 0])));
    let all = instruction_selector(&[PROGRAM_P], true);
    assert!(!all.is_selected(&TOKEN_KEY, &with_payload(vec![8, 1, 0, 0, 0, 0, 0, 0, 0])));
}

#[test]
fn other_programs_are_selected_with_any_payload() {
    let sel = instruction_selector(&[PROGRAM_P, TOKEN_KEY], false);
    assert!(sel.is_selected(&PROGRAM_P, &with_payload(vec![])));
    assert!(sel.is_selected(&PROGRAM_P, &with_payload(vec![8, 2, 0, 0, 0, 0, 0, 0, 0])));
    assert!(sel.is_selected(&PROGRAM_P, &with_payload(vec![0xFF; 100])));
    assert!(!sel.is_selected(&TOKEN_KEY, &with_payload(vec![8, 2, 0, 0, 0, 0, 0, 0, 0])));
}

#[test]
fn instruction_selector_is_empty_without_programs() {
    let sel = instruction_selector(&[], false);
    assert!(sel.is_empty());
    assert!(!sel.is_selected(&TOKEN_KEY, &with_payload(vec![8, 1, 0, 0, 0, 0, 0, 0, 0])));
    assert!(!sel.is_selected(&PROGRAM_P, &with_payload(vec![])));
    assert!(instruction_selector(&[], true).is_empty());
    assert!(!instruction_selector(&[PROGRAM_P], false).is_empty());
}

#[test]
fn instruction_programs_must_parse() {
    let made = InstructionSelector::from_config(Instructions {
        programs: vec![program_text(&PROGRAM_P), "!".to_string()],
        all_token_calls: false,
    });
    assert_eq!(made.err(), Some(ConfigError::InstructionPrograms));
    let short = Pubkey::new_from_array(PROGRAM_P).to_string()[..20].to_string();
    let made = InstructionSelector::from_config(Instructions { programs: vec![short], all_token_calls: true });
    assert_eq!(made.err(), Some(ConfigError::InstructionPrograms));
}

#[test]
fn texts_denote_distinct_identifiers() {
    let sel = instruction_selector(&[PROGRAM_P], true);
    assert!(sel.is_selected(&PROGRAM_P, &with_payload(vec![])));
    let mut near = PROGRAM_P;
    near[31] ^= 1;
    assert!(!sel.is_selected(&near, &with_payload(vec![])));
    let known = InstructionSelector::from_config(Instructions {
        programs: vec!["11111111111111111111111111111111".to_string()],
        all_token_calls: true,
    })
    .unwrap();
    assert!(known.is_selected(&[0u8; 32], &with_payload(vec![])));
    assert!(!known.is_selected(&[1u8; 32], &with_payload(vec![])));
}

#[test]
fn instruction_selector_over_a_given_key_set() {
    let sel = InstructionSelector::new(KeySet::from_keys(&[TOKEN_KEY, PROGRAM_P]), false);
    assert!(!sel.is_empty());
    assert!(sel.is_selected(&TOKEN_KEY, &with_payload(vec![8, 1, 0, 0, 0, 0, 0, 0, 0])));
    assert!(!sel.is_selected(&TOKEN_KEY, &with_payload(vec![8, 3, 0, 0, 0, 0, 0, 0, 0])));
    assert!(sel.is_selected(&PROGRAM_P, &with_payload(vec![8, 3, 0, 0, 0, 0, 0, 0, 0])));
    assert!(!sel.is_selected(&PROGRAM_Q, &with_payload(vec![])));
    let all = InstructionSelector::new(KeySet::from_keys(&[TOKEN_KEY]), true);
    assert!(all.is_selected(&TOKEN_KEY, &with_payload(vec![8, 3, 0, 0, 0, 0, 0, 0, 0])));
}

#[test]
fn burn_payload_decodes_little_endian() {
    assert_eq!(BURN_TAG, 8);
    assert_eq!(decode_burn(&[8, 1, 0, 0, 0, 0, 0, 0, 0]), Some(1));
    assert_eq!(decode_burn(&[8, 0, 1, 0, 0, 0, 0, 0, 0]), Some(256));
    assert_eq!(decode_burn(&[8, 1, 2, 3, 4, 5, 6, 7, 8]), Some(0x0807_0605_0403_0201));
    assert_eq!(decode_burn(&[8, 255, 255, 255, 255, 255, 255, 255, 255]), Some(u64::MAX));
    assert_eq!(decode_burn(&[8, 0, 0, 0, 0, 0, 0, 0, 0]), Some(0));
    for amount in [7u64, 1 << 8, 1 << 16, 1 << 24, 1 << 32, 1 << 40, 1 << 48, 1 << 56, 0xDEAD_BEEF_0BAD_F00D] {
        assert_eq!(decode_burn(&TokenInstruction::Burn { amount }.pack()), Some(amount));
    }
}

#[test]
fn burn_payload_of_another_shape_decodes_to_nothing() {
    assert_eq!(decode_burn(&[]), None);
    assert_eq!(decode_burn(&[8]), None);
    assert_eq!(decode_burn(&[8, 1, 0, 0, 0, 0, 0, 0]), None);
    assert_eq!(decode_burn(&[8, 1, 0, 0, 0, 0, 0, 0, 0, 0]), None);
    assert_eq!(decode_burn(&[7, 1, 0, 0, 0, 0, 0, 0, 0]), None);
    assert_eq!(decode_burn(&TokenInstruction::Transfer { amount: 1 }.pack()), None);
}

#[test]
fn byte_strings_compare_by_content() {
    assert!(bytes_equal(&[], &[]));
    assert!(bytes_equal(&[1, 2, 3], &[1, 2, 3]));
    assert!(!bytes_equal(&[1, 2, 3], &[1, 2, 4]));
    assert!(!bytes_equal(&[1, 2, 3], &[1, 2]));
    assert!(!bytes_equal(&[1, 2], &[1, 2, 3]));
    assert!(bytes_equal(&TOKEN_KEY, &spl_token::id().to_bytes()));
}
