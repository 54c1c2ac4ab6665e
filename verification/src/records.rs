//! The data model: alias records, route records, stale route blobs, payment
//! requests, and the values a settlement hands back.
//!
//! Identities (owners, recipients, record ids) are abstract 64-bit principal
//! keys; the substrate that maps them to real addresses is outside this
//! library. Record identity (`id` fields) is fresh per creation, so a record
//! that is deleted and re-created under the same name is distinguishable
//! from its predecessor.

use vstd::prelude::*;
use vstd::utf8::encode_utf8;

use crate::errors::UnikError;

verus! {

/// Shortest alias name accepted, in characters.
pub const MIN_ALIAS_CHARS: usize = 3;

/// Longest alias name accepted, in characters.
pub const MAX_ALIAS_CHARS: usize = 32;

/// Longest metadata URI accepted, in bytes.
pub const MAX_METADATA_BYTES: usize = 200;

/// Longest payment request concept accepted, in bytes.
pub const MAX_CONCEPT_BYTES: usize = 100;

/// Most splits a route may hold.
pub const MAX_SPLITS: usize = 5;

/// One weighted payout entry: `percentage` is a weight in basis points
/// (10000 = 100%).
#[derive(Clone, Copy, Debug, PartialEq, Eq, Structural)]
pub struct Split {
    pub recipient: u64,
    pub percentage: u16,
}

/// An alias record: a unique human-readable name bound to an owner.
///
/// `id` is the record's identity, fresh per registration; `version` starts
/// at 1; `is_active` gates settlements.
#[derive(Clone, Debug)]
pub struct AliasAccount {
    pub id: u64,
    pub owner: u64,
    pub alias: String,
    pub metadata_uri: String,
    pub version: u64,
    pub is_active: bool,
    pub registered_at: u64,
}

/// A route record: the ordered weighted recipients configured for an alias.
///
/// `alias_ref` names the identity of the alias record the route was
/// configured under; a settlement re-checks it so that a route surviving an
/// alias deletion cannot silently bind to an unrelated later record.
#[derive(Clone, Debug)]
pub struct RouteAccount {
    pub id: u64,
    pub alias_ref: u64,
    pub alias: String,
    pub splits: Vec<Split>,
}

/// A persisted route blob from an earlier schema revision: never
/// deserialized, only retirable through `migrate_stale`.
///
/// `derived_from` is the alias whose deterministic derivation gives the
/// record's actual storage address; `subsystem_owned` says whether this
/// subsystem owns the record.
#[derive(Clone, Debug)]
pub struct StaleRoute {
    pub derived_from: String,
    pub subsystem_owned: bool,
    pub payload: Vec<u8>,
}

/// A pending "please pay me" note, independent of routing; immutable after
/// creation and closed by its sender or the alias's current owner.
#[derive(Clone, Debug)]
pub struct PaymentRequest {
    pub sender: u64,
    pub recipient_alias: String,
    pub amount: u64,
    pub concept: String,
    pub timestamp: u64,
}

/// The deterministically derived per-token sub-account of a recipient.
/// Derivation is a pure function of the pair, so it can always be recomputed
/// and compared against a caller-supplied value.
#[derive(Clone, Copy, Debug, PartialEq, Eq, Structural)]
pub struct SubAccount {
    pub owner: u64,
    pub token: u64,
}

/// One base-unit transfer a settlement instructs the external ledger to
/// perform: move `amount` from the payer to `to`.
#[derive(Clone, Copy, Debug, PartialEq, Eq, Structural)]
pub struct TransferInstruction {
    pub to: u64,
    pub amount: u64,
}

/// One token transfer a settlement instructs the external ledger to
/// perform: move `amount` into the recipient's derived sub-account.
#[derive(Clone, Copy, Debug, PartialEq, Eq, Structural)]
pub struct TokenTransferInstruction {
    pub to: SubAccount,
    pub amount: u64,
}

/// A character an alias name may hold: a lowercase ASCII letter, a digit,
/// or an underscore.
pub open spec fn alias_char(c: char) -> bool {
    ('a' <= c && c <= 'z') || ('0' <= c && c <= '9') || c == '_'
}

/// Every character of `s` is one an alias may hold.
pub open spec fn alias_chars_ok(s: Seq<char>) -> bool {
    forall|i: int| 0 <= i < s.len() ==> alias_char(#[trigger] s[i])
}

/// A well-shaped alias name: 3 to 32 characters, all from the alias
/// character set.
pub open spec fn valid_alias_name(s: Seq<char>) -> bool {
    &&& MIN_ALIAS_CHARS <= s.len() <= MAX_ALIAS_CHARS
    &&& alias_chars_ok(s)
}

/// The length of a string in bytes, as the store holds it.
pub open spec fn str_byte_len(s: Seq<char>) -> nat {
    encode_utf8(s).len()
}

/// The stored byte length of `s`.
pub fn byte_length(s: &String) -> (n: usize)
    ensures
        n == str_byte_len(s@),
{
    s.as_str().as_bytes().len()
}

/// Checks the shape of an alias name: first its character count, then its
/// character set.
pub fn validate_alias_name(s: &str) -> (r: Result<(), UnikError>)
    ensures
        match r {
            Ok(()) => valid_alias_name(s@),
            Err(e) => {
                &&& !valid_alias_name(s@)
                &&& (if !(MIN_ALIAS_CHARS <= s@.len() <= MAX_ALIAS_CHARS) {
                    e == UnikError::InvalidAliasLength
                } else {
                    e == UnikError::InvalidAliasCharacters
                })
            },
        },
{
    let n = s.unicode_len();
    if n < MIN_ALIAS_CHARS || n > MAX_ALIAS_CHARS {
        return Err(UnikError::InvalidAliasLength);
    }
    let mut i: usize = 0;
    while i < n
        invariant
            n == s@.len(),
            MIN_ALIAS_CHARS <= n <= MAX_ALIAS_CHARS,
            i <= n,
            forall|j: int| 0 <= j < i ==> alias_char(#[trigger] s@[j]),
        decreases n - i,
    {
        let c = s.get_char(i);
        let u = c as u32;
        if !((97 <= u && u <= 122) || (48 <= u && u <= 57) || u == 95) {
            return Err(UnikError::InvalidAliasCharacters);
        }
        i = i + 1;
    }
    Ok(())
}

/// The derived sub-account of `owner` for token kind `token`.
pub open spec fn sub_account_of(owner: u64, token: u64) -> SubAccount {
    SubAccount { owner, token }
}

/// Recomputes the sub-account a recipient must be paid into for a token.
/// Settlement compares this against whatever the caller supplied.
pub fn derive_sub_account(owner: u64, token: u64) -> (r: SubAccount)
    ensures
        r == sub_account_of(owner, token),
{
    SubAccount { owner, token }
}

} // verus!
