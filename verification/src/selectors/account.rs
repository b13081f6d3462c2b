//! Selection of account updates: by owner, by the account itself, by the
//! phase the update comes from, and, for token accounts, by what they hold.

use crate::config::{Accounts, ConfigError};
use crate::interface::ReplicaAccountInfo;
use crate::keys::{all_denote, bytes_equal, denoted, KeySet};
use crate::token::{
    token_amount, token_layout_valid, token_mint, TokenAccountView, TOKEN_ACCOUNT_LEN, TOKEN_KEY,
};
use vstd::prelude::*;

verus! {

/// Filter over account updates.
///
/// Token screening is either off for good, or on: then the selector is built
/// with no token mints and is given them once, by [`AccountSelector::init_tokens`].
#[derive(Debug)]
pub struct AccountSelector {
    owners: KeySet,
    pubkeys: KeySet,
    startup: Option<bool>,
    token_addresses: Option<KeySet>,
}

impl AccountSelector {
    /// The owners whose accounts are wanted.
    pub closed spec fn owners(&self) -> Set<Seq<u8>> {
        self.owners@
    }

    /// The accounts that are wanted themselves.
    pub closed spec fn pubkeys(&self) -> Set<Seq<u8>> {
        self.pubkeys@
    }

    /// The phase that updates are wanted from, if only one is.
    pub closed spec fn startup_filter(&self) -> Option<bool> {
        self.startup
    }

    /// The token mints that are screened out, where token screening is on.
    pub closed spec fn token_addresses(&self) -> Option<Set<Seq<u8>>> {
        match self.token_addresses {
            Some(mints) => Some(mints@),
            None => None,
        }
    }

    /// Whether token screening rejects an account with this owner and data:
    /// screening is on, the token program owns the account, the data is a
    /// packed token account, and it holds more than one unit or a token of a
    /// screened mint.
    pub open spec fn screens_out(&self, owner: Seq<u8>, data: Seq<u8>) -> bool {
        &&& owner == TOKEN_KEY@
        &&& self.token_addresses() matches Some(mints)
        &&& token_layout_valid(data)
        &&& (token_amount(data) > 1 || mints.contains(token_mint(data)))
    }

    /// Whether an account update is selected: its phase is the wanted one,
    /// its owner or the account itself is allow-listed, and token screening
    /// does not reject it.
    pub open spec fn selects(
        &self,
        owner: Seq<u8>,
        pubkey: Seq<u8>,
        data: Seq<u8>,
        is_startup: bool,
    ) -> bool {
        &&& (self.startup_filter() matches Some(wanted) ==> is_startup == wanted)
        &&& (self.owners().contains(owner) || self.pubkeys().contains(pubkey))
        &&& !self.screens_out(owner, data)
    }

    /// The selector over the given allow-sets. Unless all tokens are wanted,
    /// token screening is on and the selector starts with no token mints.
    pub fn new(
        owners: KeySet,
        pubkeys: KeySet,
        startup: Option<bool>,
        all_tokens: bool,
    ) -> (selector: Self)
        ensures
            selector.owners() == owners@,
            selector.pubkeys() == pubkeys@,
            selector.startup_filter() == startup,
            selector.token_addresses() == (if all_tokens {
                None
            } else {
                Some(Set::<Seq<u8>>::empty())
            }),
    {
        let token_addresses = if all_tokens {
            None
        } else {
            Some(KeySet::empty())
        };
        AccountSelector { owners, pubkeys, startup, token_addresses }
    }

    /// Builds the selector that a configuration describes. Fails when a
    /// text of either list denotes no identifier; the owners are looked at
    /// first.
    pub fn from_config(config: Accounts) -> (made: Result<Self, ConfigError>)
        ensures
            made is Ok <==> all_denote(config.owners@) && all_denote(config.pubkeys@),
            made matches Ok(selector) ==> {
                &&& selector.owners() == denoted(config.owners@)
                &&& selector.pubkeys() == denoted(config.pubkeys@)
                &&& selector.startup_filter() == config.startup
                &&& selector.token_addresses() == (if config.all_tokens {
                    None
                } else {
                    Some(Set::<Seq<u8>>::empty())
                })
            },
            made matches Err(e) ==> e == (if all_denote(config.owners@) {
                ConfigError::AccountPubkeys
            } else {
                ConfigError::AccountOwners
            }),
    {
        let owners = match KeySet::parse_all(&config.owners) {
            Some(set) => set,
            None => {
                return Err(ConfigError::AccountOwners);
            },
        };
        let pubkeys = match KeySet::parse_all(&config.pubkeys) {
            Some(set) => set,
            None => {
                return Err(ConfigError::AccountPubkeys);
            },
        };
        Ok(AccountSelector::new(owners, pubkeys, config.startup, config.all_tokens))
    }

    /// Whether nothing at all is configured: no owner, no account, and no
    /// token screening. Such a selector selects no update.
    pub fn is_empty(&self) -> (empty: bool)
        ensures
            empty == (self.owners() == Set::<Seq<u8>>::empty() && self.pubkeys() == Set::<
                Seq<u8>,
            >::empty() && self.token_addresses() is None),
            empty ==> forall|owner: Seq<u8>, pubkey: Seq<u8>, data: Seq<u8>, is_startup: bool|
                !#[trigger] self.selects(owner, pubkey, data, is_startup),
    {
        self.owners.is_empty() && self.pubkeys.is_empty() && self.token_addresses.is_none()
    }

    /// Hands the selector the token mints to screen out. This is done once:
    /// token screening must be on and no mints loaded yet.
    pub fn init_tokens(&mut self, addrs: KeySet)
        requires
            old(self).token_addresses() == Some(Set::<Seq<u8>>::empty()),
        ensures
            final(self).token_addresses() == Some(addrs@),
            final(self).owners() == old(self).owners(),
            final(self).pubkeys() == old(self).pubkeys(),
            final(self).startup_filter() == old(self).startup_filter(),
    {
        self.token_addresses = Some(addrs);
    }

    /// Whether [`AccountSelector::init_tokens`] may be called: token
    /// screening is on and no token mint is loaded.
    pub fn awaits_tokens(&self) -> (waiting: bool)
        ensures
            waiting == (self.token_addresses() == Some(Set::<Seq<u8>>::empty())),
    {
        match &self.token_addresses {
            Some(mints) => mints.is_empty(),
            None => false,
        }
    }

    /// Hands the selector the token mints if it is waiting for them, and
    /// tells whether it was. A selector that was not waiting stays as it
    /// is.
    pub fn try_init_tokens(&mut self, addrs: KeySet) -> (loaded: bool)
        ensures
            loaded == (old(self).token_addresses() == Some(Set::<Seq<u8>>::empty())),
            final(self).token_addresses() == (if loaded {
                Some(addrs@)
            } else {
                old(self).token_addresses()
            }),
            final(self).owners() == old(self).owners(),
            final(self).pubkeys() == old(self).pubkeys(),
            final(self).startup_filter() == old(self).startup_filter(),
    {
        if self.awaits_tokens() {
            self.init_tokens(addrs);
            true
        } else {
            false
        }
    }

    /// The phase that updates are wanted from: only startup (`true`), only
    /// normal operation (`false`), or both (`None`).
    pub fn startup(&self) -> (wanted: Option<bool>)
        ensures
            wanted == self.startup_filter(),
    {
        self.startup
    }

    /// Whether token screening is on.
    pub fn screen_tokens(&self) -> (on: bool)
        ensures
            on == self.token_addresses() is Some,
    {
        self.token_addresses.is_some()
    }

    /// Classifies an account update.
    ///
    /// An update whose owner and own identifier are both outside the
    /// allow-sets is rejected whatever its data holds. With token screening
    /// on, a packed token account of the token program that holds more than
    /// one unit is rejected whatever its mint is.
    pub fn is_selected(&self, acct: &ReplicaAccountInfo, is_startup: bool) -> (selected: bool)
        ensures
            selected == self.selects(acct.owner@, acct.pubkey@, acct.data@, is_startup),
            !self.owners().contains(acct.owner@) && !self.pubkeys().contains(acct.pubkey@)
                ==> !selected,
            self.token_addresses() is Some && acct.owner@ == TOKEN_KEY@ && token_layout_valid(
                acct.data@,
            ) && token_amount(acct.data@) > 1 ==> !selected,
    {
        if let Some(wanted) = self.startup {
            if is_startup != wanted {
                return false;
            }
        }
        if !(self.owners.contains(acct.owner) || self.pubkeys.contains(acct.pubkey)) {
            return false;
        }
        let token_key = TOKEN_KEY;
        if bytes_equal(acct.owner, token_key.as_slice()) {
            if let Some(mints) = &self.token_addresses {
                if let Some(token) = TokenAccountView::parse(acct.data) {
                    if token.amount > 1 || mints.contains(token.mint.as_slice()) {
                        return false;
                    }
                }
            }
        }
        true
    }
}

/// A selector rejects every update exactly when it allow-lists no owner and
/// no account.
pub proof fn lemma_rejects_everything(selector: AccountSelector)
    ensures
        (selector.owners() == Set::<Seq<u8>>::empty() && selector.pubkeys() == Set::<
            Seq<u8>,
        >::empty()) <==> (forall|owner: Seq<u8>, pubkey: Seq<u8>, data: Seq<u8>, is_startup: bool|
            !#[trigger] selector.selects(owner, pubkey, data, is_startup)),
{
    let phase = match selector.startup_filter() {
        Some(wanted) => wanted,
        None => true,
    };
    let no_data = Seq::<u8>::empty();
    assert(!token_layout_valid(no_data)) by {
        assert(no_data.len() != TOKEN_ACCOUNT_LEN);
    }
    if selector.owners() != Set::<Seq<u8>>::empty() {
        assert(!(selector.owners() =~= Set::<Seq<u8>>::empty()));
        let owner = choose|owner: Seq<u8>| selector.owners().contains(owner);
        assert(selector.selects(owner, no_data, no_data, phase));
    }
    if selector.pubkeys() != Set::<Seq<u8>>::empty() {
        assert(!(selector.pubkeys() =~= Set::<Seq<u8>>::empty()));
        let pubkey = choose|pubkey: Seq<u8>| selector.pubkeys().contains(pubkey);
        assert(selector.selects(no_data, pubkey, no_data, phase));
    }
}

} // verus!
