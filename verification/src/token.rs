//! The two binary formats of the token program that the selectors look into:
//! the fixed layout of a token account and the payload of a burn instruction.

use crate::keys::Pubkey;
use solana_program::program_pack::Pack;
use vstd::prelude::*;

verus! {

/// The identifier of the token program.
pub const TOKEN_KEY: Pubkey = [
    6, 221, 246, 225, 215, 101, 161, 147, 217, 203, 225, 70, 206, 235, 121, 172, 28, 180, 133, 237,
    95, 91, 55, 145, 58, 140, 245, 133, 126, 255, 0, 169,
];

/// The size in bytes of a packed token account.
pub const TOKEN_ACCOUNT_LEN: usize = 165;

/// The first byte of a burn instruction's payload.
pub const BURN_TAG: u8 = 8;

/// What the selectors read from a token account.
#[derive(Debug, Clone, Copy, PartialEq, Eq)]
pub struct TokenAccountView {
    pub mint: Pubkey,
    pub owner: Pubkey,
    pub amount: u64,
}

/// The number that eight bytes encode, least significant byte first.
pub open spec fn le_u64(bytes: Seq<u8>) -> int
    recommends
        bytes.len() == 8,
{
    bytes[0] + bytes[1] * 0x100 + bytes[2] * 0x1_0000 + bytes[3] * 0x100_0000 + bytes[4]
        * 0x1_0000_0000 + bytes[5] * 0x100_0000_0000 + bytes[6] * 0x1_0000_0000_0000 + bytes[7]
        * 0x100_0000_0000_0000
}

/// Whether the four bytes at `at` tag an optional field as absent
/// (`0, 0, 0, 0`) or present (`1, 0, 0, 0`).
pub open spec fn option_tag_valid(data: Seq<u8>, at: int) -> bool {
    (data[at] == 0 || data[at] == 1) && data[at + 1] == 0 && data[at + 2] == 0 && data[at + 3] == 0
}

/// Whether `data` is a packed token account: 165 bytes, in which the tags of
/// the three optional fields (delegate at 72, native reserve at 109, close
/// authority at 129) are valid and the state byte at 108 names one of the
/// three account states.
pub open spec fn token_layout_valid(data: Seq<u8>) -> bool {
    &&& data.len() == TOKEN_ACCOUNT_LEN
    &&& option_tag_valid(data, 72)
    &&& data[108] <= 2
    &&& option_tag_valid(data, 109)
    &&& option_tag_valid(data, 129)
}

/// The mint of a packed token account: its first 32 bytes.
pub open spec fn token_mint(data: Seq<u8>) -> Seq<u8> {
    data.subrange(0, 32)
}

/// The owner of a packed token account: bytes 32 to 64.
pub open spec fn token_owner(data: Seq<u8>) -> Seq<u8> {
    data.subrange(32, 64)
}

/// The amount of a packed token account: bytes 64 to 72, little-endian.
pub open spec fn token_amount(data: Seq<u8>) -> int {
    le_u64(data.subrange(64, 72))
}

/// Whether `view` is what a packed token account `data` holds.
pub open spec fn views_account(view: TokenAccountView, data: Seq<u8>) -> bool {
    &&& view.mint@ == token_mint(data)
    &&& view.owner@ == token_owner(data)
    &&& view.amount == token_amount(data)
}

/// The amount that a burn payload carries: the payload is the burn tag and
/// eight bytes of little-endian amount, nine bytes in all.
pub open spec fn burn_amount(payload: Seq<u8>) -> Option<int> {
    if payload.len() == 9 && payload[0] == BURN_TAG {
        Some(le_u64(payload.subrange(1, 9)))
    } else {
        None
    }
}

/// The payload of a burn of exactly one unit.
pub open spec fn unit_burn_payload() -> Seq<u8> {
    seq![8u8, 1, 0, 0, 0, 0, 0, 0, 0]
}

/// A payload is a burn of one unit exactly when it is the nine bytes
/// `8, 1, 0, 0, 0, 0, 0, 0, 0`.
pub proof fn lemma_unit_burn(payload: Seq<u8>)
    ensures
        burn_amount(payload) == Some(1int) <==> payload == unit_burn_payload(),
{
    if payload == unit_burn_payload() {
        assert(payload.len() == 9);
        assert(payload[0] == 8 && payload[1] == 1 && payload[8] == 0);
        assert(le_u64(payload.subrange(1, 9)) == 1);
    }
    if burn_amount(payload) == Some(1int) {
        let rest = payload.subrange(1, 9);
        assert(rest[0] == 1 && rest[1] == 0 && rest[2] == 0 && rest[3] == 0 && rest[4] == 0
            && rest[5] == 0 && rest[6] == 0 && rest[7] == 0);
        assert(payload =~= unit_burn_payload());
    }
}

/// Trusted: `Pack::get_packed_len` on `spl_token::state::Account` is that
/// type's `LEN`, 165.
#[verifier::external_body]
pub(crate) fn token_account_len() -> (len: usize)
    ensures
        len == TOKEN_ACCOUNT_LEN,
{
    spl_token::state::Account::get_packed_len()
}

/// Trusted: `Pack::unpack_from_slice` on `spl_token::state::Account`, given
/// 165 bytes, succeeds exactly when the three option tags and the state byte
/// are valid, and then reads the mint from bytes 0 to 32, the owner from
/// bytes 32 to 64 and the amount, little-endian, from bytes 64 to 72. On
/// fewer bytes it would panic, so they are left out.
#[verifier::external_body]
pub(crate) fn unpack_token_account(data: &[u8]) -> (view: Option<TokenAccountView>)
    requires
        data@.len() == TOKEN_ACCOUNT_LEN,
    ensures
        view is Some <==> token_layout_valid(data@),
        view matches Some(v) ==> views_account(v, data@),
{
    match spl_token::state::Account::unpack_from_slice(data) {
        Ok(account) => Some(
            TokenAccountView {
                mint: account.mint.to_bytes(),
                owner: account.owner.to_bytes(),
                amount: account.amount,
            },
        ),
        Err(_) => None,
    }
}

impl TokenAccountView {
    /// Reads a token account. The view exists exactly when `data` is a packed
    /// token account; bytes of any other length or shape give nothing.
    pub fn parse(data: &[u8]) -> (view: Option<TokenAccountView>)
        ensures
            view is Some <==> token_layout_valid(data@),
            view matches Some(v) ==> views_account(v, data@),
    {
        if data.len() != token_account_len() {
            return None;
        }
        unpack_token_account(data)
    }
}

/// Decodes the payload of a burn instruction into its amount. Any payload
/// that is not the burn tag followed by eight bytes gives nothing.
pub fn decode_burn(payload: &[u8]) -> (amount: Option<u64>)
    ensures
        amount is Some <==> burn_amount(payload@) is Some,
        amount matches Some(a) ==> burn_amount(payload@) == Some(a as int),
{
    if payload.len() != 9 || payload[0] != BURN_TAG {
        return None;
    }
    let ghost rest = payload@.subrange(1, 9);
    assert(forall|i: int| 0 <= i < 8 ==> rest[i] == payload@[i + 1]);
    let amount: u64 = (payload[1] as u64) + (payload[2] as u64) * 0x100 + (payload[3] as u64)
        * 0x1_0000 + (payload[4] as u64) * 0x100_0000 + (payload[5] as u64) * 0x1_0000_0000 + (
    payload[6] as u64) * 0x100_0000_0000 + (payload[7] as u64) * 0x1_0000_0000_0000 + (
    payload[8] as u64) * 0x100_0000_0000_0000;
    Some(amount)
}

} // verus!
