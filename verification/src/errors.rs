//! The error taxonomy: every operation fails with a specific kind, before any
//! state mutation, and never with a generic failure.

use vstd::prelude::*;

verus! {

/// Why an operation was rejected.
///
/// Validation kinds report ill-shaped input; authorization kinds report a
/// caller or a record that may not act; `Overflow` reports split arithmetic
/// that cannot be represented losslessly; resource kinds report a record or
/// transfer target that could not be found.
#[derive(Clone, Copy, Debug, PartialEq, Eq, Structural)]
pub enum UnikError {
    /// The caller is not the owner of the record it tries to mutate.
    Unauthorized,
    /// Split weights do not sum to exactly 10000 basis points.
    InvalidSplitTotal,
    /// `total * weight_bps` exceeds what a 64-bit amount can hold.
    Overflow,
    /// A split's recipient has no resolvable transfer target.
    MissingRecipient,
    /// An alias is shorter than 3 or longer than 32 characters.
    InvalidAliasLength,
    /// An alias holds a character outside lowercase ASCII letters, digits
    /// and underscore.
    InvalidAliasCharacters,
    /// A metadata URI exceeds 200 bytes.
    MetadataTooLong,
    /// The alias (or route, or request key) is already registered.
    AlreadyExists,
    /// Deactivating an alias that is already inactive.
    AliasAlreadyInactive,
    /// Reactivating an alias that is already active.
    AliasAlreadyActive,
    /// No alias record exists under the given name.
    AliasNotFound,
    /// A route holds more than 5 splits.
    TooManySplits,
    /// Two splits name the same recipient.
    DuplicateRecipient,
    /// A split's recipient is the route's or the alias record's own identity.
    SelfReference,
    /// No route record exists under the given alias.
    RouteNotFound,
    /// The route record under the given alias is a legacy blob that cannot be
    /// read under the current schema; only `migrate_stale` can retire it.
    RouteRecordStale,
    /// The route's back-reference does not name the current alias record.
    RouteMismatch,
    /// A settlement amount below the dust floor.
    AmountTooSmall,
    /// Settlement against an alias whose record is deactivated.
    AliasInactive,
    /// A caller-supplied target does not equal the independently derived one.
    AddressMismatch,
    /// A record that this subsystem does not own cannot be retired.
    ForeignRecord,
    /// A payment request concept exceeds 100 bytes.
    ConceptTooLong,
    /// A payment request already exists for this alias and requester.
    RequestAlreadyExists,
    /// No payment request exists for this alias and requester.
    RequestNotFound,
}

} // verus!
