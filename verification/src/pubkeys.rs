//! Bundled public keys for offline receipt verification.
//!
//! Keys are found by the `public_key_id` that a receipt carries, so several can be
//! bundled at once and a key rotation does not strand older receipts. Until an
//! official key is published the registry is empty, and verification needs an
//! explicit public key.
use vstd::prelude::*;
use crate::text::same_text;

verus! {

/// The keys trusted for verification: the id of each, and its PEM text.
pub const BUNDLED_KEYS: [(&'static str, &'static str); 0] = [];

/// The PEM of the first key with the given id.
pub open spec fn bundled_pem(keys: Seq<(&'static str, &'static str)>, key_id: Seq<char>) -> Option<Seq<char>>
    decreases keys.len(),
{
    if keys.len() == 0 {
        None
    } else if keys[0].0@ == key_id {
        Some(keys[0].1@)
    } else {
        bundled_pem(keys.drop_first(), key_id)
    }
}

/// The PEM that `keys` holds for `key_id`, if any.
pub fn find_key(keys: &[(&'static str, &'static str)], key_id: &str) -> (r: Option<&'static str>)
    ensures
        match r {
            Some(pem) => bundled_pem(keys@, key_id@) == Some(pem@),
            None => bundled_pem(keys@, key_id@) is None,
        },
{
    let mut i: usize = 0;
    assert(keys@.skip(0) =~= keys@);
    while i < keys.len()
        invariant
            i <= keys@.len(),
            bundled_pem(keys@, key_id@) == bundled_pem(keys@.skip(i as int), key_id@),
        decreases keys@.len() - i,
    {
        if same_text(keys[i].0, key_id) {
            return Some(keys[i].1);
        }
        assert(keys@.skip(i as int).drop_first() =~= keys@.skip(i + 1));
        i = i + 1;
    }
    None
}

/// A key rotation strands no receipt: with a key added behind those that are bundled,
/// every id that was known keeps its key, and a new id gets the added one.
pub proof fn law_rotation_keeps_older_keys(
    keys: Seq<(&'static str, &'static str)>,
    added: (&'static str, &'static str),
    key_id: Seq<char>,
)
    ensures
        bundled_pem(keys, key_id) is Some ==> bundled_pem(keys.push(added), key_id) == bundled_pem(
            keys,
            key_id,
        ),
        bundled_pem(keys, key_id) is None ==> bundled_pem(keys.push(added), key_id) == (if added.0@
            == key_id {
            Some(added.1@)
        } else {
            None
        }),
    decreases keys.len(),
{
    if keys.len() > 0 {
        law_rotation_keeps_older_keys(keys.drop_first(), added, key_id);
        assert(keys.push(added).drop_first() =~= keys.drop_first().push(added));
    } else {
        assert(keys.push(added).drop_first() =~= keys);
    }
}

/// The bundled PEM for `key_id`, if one is trusted.
pub fn key_for(key_id: &str) -> (r: Option<&'static str>)
    ensures
        match r {
            Some(pem) => bundled_pem(BUNDLED_KEYS@, key_id@) == Some(pem@),
            None => bundled_pem(BUNDLED_KEYS@, key_id@) is None,
        },
{
    let keys: [(&'static str, &'static str); 0] = BUNDLED_KEYS;
    find_key(keys.as_slice(), key_id)
}

} // verus!
