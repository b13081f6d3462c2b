//! Identifiers and flat allow-sets of identifiers.
//!
//! An identifier is a 32-byte address. In contracts it is its byte sequence,
//! and an allow-set is the mathematical set of the byte sequences it holds.

use vstd::prelude::*;

verus! {

/// A 32-byte on-chain address.
pub type Pubkey = [u8; 32];

/// The byte sequences that an allow-set holds.
pub uninterp spec fn key_set_contents(set: KeySet) -> Set<Seq<u8>>;

/// The identifier that a base58 text denotes, if it denotes one.
pub uninterp spec fn base58_key(text: Seq<char>) -> Option<Seq<u8>>;

/// A flat allow-set of identifiers. Membership is the only question it
/// answers; it is never walked.
///
/// The set lives in a `hashbrown::HashSet<[u8; 32]>`, whose allocator bound
/// cannot be named from outside that crate, so the verifier sees this struct
/// as opaque and knows its contents only as [`key_set_contents`].
#[verifier::external_body]
#[derive(Debug)]
pub struct KeySet {
    inner: hashbrown::HashSet<[u8; 32]>,
}

impl View for KeySet {
    type V = Set<Seq<u8>>;

    open spec fn view(&self) -> Set<Seq<u8>> {
        key_set_contents(*self)
    }
}

/// The byte sequences of the identifiers in a list.
pub open spec fn keys_of(keys: Seq<Pubkey>) -> Set<Seq<u8>> {
    Set::new(|k: Seq<u8>| exists|j: int| 0 <= j < keys.len() && #[trigger] keys[j]@ == k)
}

/// Whether each text of a list denotes an identifier.
pub open spec fn all_denote(texts: Seq<String>) -> bool {
    forall|j: int| 0 <= j < texts.len() ==> (#[trigger] base58_key(texts[j]@)) is Some
}

/// The identifiers that the texts of a list denote.
pub open spec fn denoted(texts: Seq<String>) -> Set<Seq<u8>> {
    Set::new(
        |k: Seq<u8>| exists|j: int| 0 <= j < texts.len() && #[trigger] base58_key(texts[j]@) == Some(k),
    )
}

/// One more identifier in the list is one more in the set.
proof fn lemma_keys_of_step(keys: Seq<Pubkey>, n: int)
    requires
        0 <= n < keys.len(),
    ensures
        keys_of(keys.take(n + 1)) == keys_of(keys.take(n)).insert(keys[n]@),
{
    let shorter = keys.take(n);
    let longer = keys.take(n + 1);
    assert forall|k: Seq<u8>| keys_of(longer).contains(k) <==> keys_of(shorter).insert(
        keys[n]@,
    ).contains(k) by {
        if keys_of(longer).contains(k) {
            let j = choose|j: int| 0 <= j < longer.len() && #[trigger] longer[j]@ == k;
            if j < n {
                assert(shorter[j]@ == k);
            }
        }
        if keys_of(shorter).contains(k) {
            let j = choose|j: int| 0 <= j < shorter.len() && #[trigger] shorter[j]@ == k;
            assert(longer[j]@ == k);
        }
        if k == keys[n]@ {
            assert(longer[n]@ == k);
        }
    }
    assert(keys_of(longer) =~= keys_of(shorter).insert(keys[n]@));
}

/// One more text that denotes an identifier is one more identifier in the
/// set.
proof fn lemma_denoted_step(texts: Seq<String>, n: int)
    requires
        0 <= n < texts.len(),
        base58_key(texts[n]@) is Some,
    ensures
        denoted(texts.take(n + 1)) == denoted(texts.take(n)).insert(
            base58_key(texts[n]@)->Some_0,
        ),
        all_denote(texts.take(n)) ==> all_denote(texts.take(n + 1)),
{
    let shorter = texts.take(n);
    let longer = texts.take(n + 1);
    let new = base58_key(texts[n]@)->Some_0;
    assert forall|k: Seq<u8>| denoted(longer).contains(k) <==> denoted(shorter).insert(
        new,
    ).contains(k) by {
        if denoted(longer).contains(k) {
            let j = choose|j: int|
                0 <= j < longer.len() && #[trigger] base58_key(longer[j]@) == Some(k);
            if j < n {
                assert(base58_key(shorter[j]@) == Some(k));
            }
        }
        if denoted(shorter).contains(k) {
            let j = choose|j: int|
                0 <= j < shorter.len() && #[trigger] base58_key(shorter[j]@) == Some(k);
            assert(base58_key(longer[j]@) == Some(k));
        }
        if k == new {
            assert(base58_key(longer[n]@) == Some(k));
        }
    }
    assert(denoted(longer) =~= denoted(shorter).insert(new));
    if all_denote(shorter) {
        assert forall|j: int| 0 <= j < longer.len() implies (#[trigger] base58_key(
            longer[j]@,
        )) is Some by {
            if j < n {
                assert(base58_key(shorter[j]@) is Some);
            }
        }
    }
}

impl KeySet {
    /// Trusted: `hashbrown::HashSet::new` makes a set that holds nothing.
    #[verifier::external_body]
    pub(crate) fn empty() -> (set: KeySet)
        ensures
            key_set_contents(set) == Set::<Seq<u8>>::empty(),
    {
        KeySet { inner: hashbrown::HashSet::new() }
    }

    /// Trusted: `hashbrown::HashSet::insert` adds the value to the set and
    /// keeps everything else.
    #[verifier::external_body]
    pub(crate) fn insert(&mut self, key: Pubkey)
        ensures
            key_set_contents(*final(self)) == key_set_contents(*old(self)).insert(key@),
    {
        self.inner.insert(key);
    }

    /// Trusted: `hashbrown::HashSet::contains`, asked with a byte slice,
    /// tells whether some held identifier has exactly these bytes.
    #[verifier::external_body]
    pub(crate) fn contains(&self, key: &[u8]) -> (found: bool)
        ensures
            found == key_set_contents(*self).contains(key@),
    {
        self.inner.contains(key)
    }

    /// Trusted: `hashbrown::HashSet::is_empty` tells whether the set holds
    /// nothing.
    #[verifier::external_body]
    pub(crate) fn is_empty(&self) -> (empty: bool)
        ensures
            empty == (key_set_contents(*self) == Set::<Seq<u8>>::empty()),
    {
        self.inner.is_empty()
    }

    /// The allow-set of the given identifiers.
    pub fn from_keys(keys: &[Pubkey]) -> (set: KeySet)
        ensures
            set@ == keys_of(keys@),
    {
        let mut set = KeySet::empty();
        let mut i: usize = 0;
        assert(set@ =~= keys_of(keys@.take(0)));
        while i < keys.len()
            invariant
                i <= keys@.len(),
                set@ == keys_of(keys@.take(i as int)),
            decreases keys@.len() - i,
        {
            proof {
                lemma_keys_of_step(keys@, i as int);
            }
            set.insert(keys[i]);
            i += 1;
        }
        assert(keys@.take(i as int) =~= keys@);
        set
    }

    /// The allow-set that a list of base58 texts denotes, or nothing when
    /// one of the texts denotes no identifier.
    pub fn parse_all(texts: &Vec<String>) -> (parsed: Option<KeySet>)
        ensures
            parsed is Some <==> all_denote(texts@),
            parsed matches Some(set) ==> set@ == denoted(texts@),
    {
        let mut set = KeySet::empty();
        let mut i: usize = 0;
        assert(set@ =~= denoted(texts@.take(0)));
        while i < texts.len()
            invariant
                i <= texts@.len(),
                all_denote(texts@.take(i as int)),
                set@ == denoted(texts@.take(i as int)),
            decreases texts@.len() - i,
        {
            match parse_key(texts[i].as_str()) {
                Some(key) => {
                    proof {
                        lemma_denoted_step(texts@, i as int);
                    }
                    set.insert(key);
                },
                None => {
                    assert(base58_key(texts@[i as int]@) is None);
                    return None;
                },
            }
            i += 1;
        }
        assert(texts@.take(i as int) =~= texts@);
        Some(set)
    }
}

/// Trusted: `solana_program::pubkey::Pubkey::from_str` decodes a base58 text
/// into an identifier or refuses it, and depends on the text alone. The bytes
/// handed back are those of the decoded identifier.
#[verifier::external_body]
pub(crate) fn parse_key(text: &str) -> (key: Option<Pubkey>)
    ensures
        key matches Some(k) ==> base58_key(text@) == Some(k@),
        key is None ==> base58_key(text@) is None,
{
    match text.parse::<solana_program::pubkey::Pubkey>() {
        Ok(key) => Some(key.to_bytes()),
        Err(_) => None,
    }
}

/// Whether two byte strings are the same.
pub fn bytes_equal(a: &[u8], b: &[u8]) -> (same: bool)
    ensures
        same == (a@ == b@),
{
    if a.len() != b.len() {
        return false;
    }
    let mut i: usize = 0;
    while i < a.len()
        invariant
            i <= a@.len(),
            a@.len() == b@.len(),
            forall|j: int| 0 <= j < i ==> a@[j] == b@[j],
        decreases a@.len() - i,
    {
        if a[i] != b[i] {
            return false;
        }
        i += 1;
    }
    assert(a@ =~= b@);
    true
}

} // verus!
