//! The registry state: alias records, route records, legacy route blobs and
//! payment requests, kept mutually consistent, with owner-gated mutations.
//!
//! The substrate executes one request at a time against a consistent view,
//! so every operation here is a synchronous transition of one `Registry`
//! value that either fully applies or leaves the state untouched.

use vstd::prelude::*;

use crate::errors::UnikError;
use crate::records::{
    AliasAccount, PaymentRequest, RouteAccount, Split, StaleRoute, MAX_CONCEPT_BYTES,
    MAX_METADATA_BYTES, MAX_SPLITS,
};
use crate::records::{alias_chars_ok, byte_length, str_byte_len, valid_alias_name, validate_alias_name};
use crate::records::{MAX_ALIAS_CHARS, MIN_ALIAS_CHARS};
use crate::split_math::sum_weights;

verus! {

/// All records the system owns, reached in the substrate through
/// deterministic per-name addresses; modelled here as one content-addressed
/// store per record kind, keyed by the name the address derives from.
pub struct Registry {
    pub aliases: Vec<AliasAccount>,
    pub routes: Vec<RouteAccount>,
    pub stale_routes: Vec<StaleRoute>,
    pub requests: Vec<PaymentRequest>,
    /// The next record identity to hand out; identities are fresh per
    /// creation, never reused while the registry lives.
    pub next_id: u64,
}

/// Some alias record carries the name `name`.
pub open spec fn has_alias(aliases: Seq<AliasAccount>, name: Seq<char>) -> bool {
    exists|i: int| 0 <= i < aliases.len() && #[trigger] aliases[i].alias@ == name
}

/// The index of the alias record named `name` (meaningful under
/// `has_alias` and name distinctness).
pub open spec fn alias_index(aliases: Seq<AliasAccount>, name: Seq<char>) -> int {
    choose|i: int| 0 <= i < aliases.len() && #[trigger] aliases[i].alias@ == name
}

/// The alias record named `name`.
pub open spec fn alias_at(aliases: Seq<AliasAccount>, name: Seq<char>) -> AliasAccount {
    aliases[alias_index(aliases, name)]
}

/// Some route record is keyed by `name`.
pub open spec fn has_route(routes: Seq<RouteAccount>, name: Seq<char>) -> bool {
    exists|i: int| 0 <= i < routes.len() && #[trigger] routes[i].alias@ == name
}

/// The index of the route record keyed by `name`.
pub open spec fn route_index(routes: Seq<RouteAccount>, name: Seq<char>) -> int {
    choose|i: int| 0 <= i < routes.len() && #[trigger] routes[i].alias@ == name
}

/// The route record keyed by `name`.
pub open spec fn route_at(routes: Seq<RouteAccount>, name: Seq<char>) -> RouteAccount {
    routes[route_index(routes, name)]
}

/// Some legacy route blob sits at the address derived from `name`.
pub open spec fn has_stale_route(stales: Seq<StaleRoute>, name: Seq<char>) -> bool {
    exists|i: int| 0 <= i < stales.len() && #[trigger] stales[i].derived_from@ == name
}

/// Some payment request is keyed by (`name`, `sender`).
pub open spec fn has_request(reqs: Seq<PaymentRequest>, name: Seq<char>, sender: u64) -> bool {
    exists|i: int|
        0 <= i < reqs.len() && #[trigger] reqs[i].recipient_alias@ == name && reqs[i].sender
            == sender
}

/// The index of the payment request keyed by (`name`, `sender`).
pub open spec fn request_index(reqs: Seq<PaymentRequest>, name: Seq<char>, sender: u64) -> int {
    choose|i: int|
        0 <= i < reqs.len() && #[trigger] reqs[i].recipient_alias@ == name && reqs[i].sender
            == sender
}

/// A well-formed alias record under id counter `next_id`.
pub open spec fn wf_alias_record(a: AliasAccount, next_id: u64) -> bool {
    &&& valid_alias_name(a.alias@)
    &&& str_byte_len(a.metadata_uri@) <= MAX_METADATA_BYTES
    &&& 1 <= a.version
    &&& a.id < next_id
}

/// A structurally valid split list: at most 5 entries, weights summing to
/// exactly 10000 basis points when non-empty, no recipient twice.
pub open spec fn splits_well_formed(splits: Seq<Split>) -> bool {
    &&& splits.len() <= MAX_SPLITS
    &&& splits.len() > 0 ==> sum_weights(splits) == 10000
    &&& forall|i: int, j: int|
        0 <= i < j < splits.len() ==> (#[trigger] splits[i]).recipient != (
        #[trigger] splits[j]).recipient
}

/// No split pays the route's own identity or the alias record's identity
/// the route was configured under.
pub open spec fn no_self_reference(splits: Seq<Split>, alias_ref: u64, route_id: u64) -> bool {
    forall|i: int|
        0 <= i < splits.len() ==> (#[trigger] splits[i]).recipient != alias_ref && splits[i].recipient
            != route_id
}

/// A well-formed route record under id counter `next_id`.
pub open spec fn wf_route_record(r: RouteAccount, next_id: u64) -> bool {
    &&& valid_alias_name(r.alias@)
    &&& splits_well_formed(r.splits@)
    &&& no_self_reference(r.splits@, r.alias_ref, r.id)
    &&& r.id < next_id
    &&& r.alias_ref < next_id
}

impl Registry {
    /// The registry invariant: every record well-shaped, every store keyed
    /// uniquely, no parsed route sharing its address with a legacy blob.
    pub open spec fn wf(&self) -> bool {
        &&& forall|i: int|
            0 <= i < self.aliases@.len() ==> wf_alias_record(
                #[trigger] self.aliases@[i],
                self.next_id,
            )
        &&& forall|i: int, j: int|
            0 <= i < j < self.aliases@.len() ==> (#[trigger] self.aliases@[i]).alias@ != (
            #[trigger] self.aliases@[j]).alias@
        &&& forall|i: int, j: int|
            0 <= i < j < self.aliases@.len() ==> (#[trigger] self.aliases@[i]).id != (
            #[trigger] self.aliases@[j]).id
        &&& forall|i: int|
            0 <= i < self.routes@.len() ==> wf_route_record(
                #[trigger] self.routes@[i],
                self.next_id,
            )
        &&& forall|i: int, j: int|
            0 <= i < j < self.routes@.len() ==> (#[trigger] self.routes@[i]).alias@ != (
            #[trigger] self.routes@[j]).alias@
        &&& forall|i: int, j: int|
            0 <= i < j < self.stale_routes@.len() ==> (
            #[trigger] self.stale_routes@[i]).derived_from@ != (
            #[trigger] self.stale_routes@[j]).derived_from@
        &&& forall|i: int, j: int|
            0 <= i < self.routes@.len() && 0 <= j < self.stale_routes@.len() ==> (
            #[trigger] self.routes@[i]).alias@ != (#[trigger] self.stale_routes@[j]).derived_from@
        &&& forall|i: int|
            0 <= i < self.requests@.len() ==> str_byte_len(
                (#[trigger] self.requests@[i]).concept@,
            ) <= MAX_CONCEPT_BYTES
        &&& forall|i: int, j: int|
            0 <= i < j < self.requests@.len() ==> !((#[trigger] self.requests@[i]).recipient_alias@
                == (#[trigger] self.requests@[j]).recipient_alias@ && self.requests@[i].sender
                == self.requests@[j].sender)
    }

    /// An empty registry.
    pub fn new() -> (r: Registry)
        ensures
            r.wf(),
            r.aliases@ == Seq::<AliasAccount>::empty(),
            r.routes@ == Seq::<RouteAccount>::empty(),
            r.stale_routes@ == Seq::<StaleRoute>::empty(),
            r.requests@ == Seq::<PaymentRequest>::empty(),
            r.next_id == 1,
    {
        Registry {
            aliases: Vec::new(),
            routes: Vec::new(),
            stale_routes: Vec::new(),
            requests: Vec::new(),
            next_id: 1,
        }
    }

    /// Finds the alias record named `name`, if one exists.
    pub(crate) fn find_alias(&self, name: &String) -> (r: Option<usize>)
        requires
            self.wf(),
        ensures
            match r {
                Some(i) => {
                    &&& has_alias(self.aliases@, name@)
                    &&& alias_index(self.aliases@, name@) == i as int
                    &&& i < self.aliases@.len()
                    &&& self.aliases@[i as int].alias@ == name@
                },
                None => !has_alias(self.aliases@, name@),
            },
    {
        let mut i: usize = 0;
        while i < self.aliases.len()
            invariant
                self.wf(),
                i <= self.aliases@.len(),
                forall|j: int| 0 <= j < i ==> (#[trigger] self.aliases@[j]).alias@ != name@,
            decreases self.aliases@.len() - i,
        {
            if self.aliases[i].alias == *name {
                proof {
                    let w = alias_index(self.aliases@, name@);
                    assert(0 <= w < self.aliases@.len() && self.aliases@[w].alias@ == name@);
                }
                return Some(i);
            }
            i = i + 1;
        }
        None
    }

    /// Finds the route record keyed by `name`, if one exists.
    pub(crate) fn find_route(&self, name: &String) -> (r: Option<usize>)
        requires
            self.wf(),
        ensures
            match r {
                Some(i) => {
                    &&& has_route(self.routes@, name@)
                    &&& route_index(self.routes@, name@) == i as int
                    &&& i < self.routes@.len()
                    &&& self.routes@[i as int].alias@ == name@
                },
                None => !has_route(self.routes@, name@),
            },
    {
        let mut i: usize = 0;
        while i < self.routes.len()
            invariant
                self.wf(),
                i <= self.routes@.len(),
                forall|j: int| 0 <= j < i ==> (#[trigger] self.routes@[j]).alias@ != name@,
            decreases self.routes@.len() - i,
        {
            if self.routes[i].alias == *name {
                proof {
                    let w = route_index(self.routes@, name@);
                    assert(0 <= w < self.routes@.len() && self.routes@[w].alias@ == name@);
                }
                return Some(i);
            }
            i = i + 1;
        }
        None
    }

    /// Finds the legacy route blob derived from `name`, if one exists.
    pub(crate) fn find_stale_route(&self, name: &String) -> (r: Option<usize>)
        requires
            self.wf(),
        ensures
            match r {
                Some(i) => {
                    &&& has_stale_route(self.stale_routes@, name@)
                    &&& i < self.stale_routes@.len()
                    &&& self.stale_routes@[i as int].derived_from@ == name@
                },
                None => !has_stale_route(self.stale_routes@, name@),
            },
    {
        let mut i: usize = 0;
        while i < self.stale_routes.len()
            invariant
                self.wf(),
                i <= self.stale_routes@.len(),
                forall|j: int|
                    0 <= j < i ==> (#[trigger] self.stale_routes@[j]).derived_from@ != name@,
            decreases self.stale_routes@.len() - i,
        {
            if self.stale_routes[i].derived_from == *name {
                return Some(i);
            }
            i = i + 1;
        }
        None
    }

    /// Finds the payment request keyed by (`name`, `sender`), if one exists.
    pub(crate) fn find_request(&self, name: &String, sender: u64) -> (r: Option<usize>)
        requires
            self.wf(),
        ensures
            match r {
                Some(i) => {
                    &&& has_request(self.requests@, name@, sender)
                    &&& request_index(self.requests@, name@, sender) == i as int
                    &&& i < self.requests@.len()
                    &&& self.requests@[i as int].recipient_alias@ == name@
                    &&& self.requests@[i as int].sender == sender
                },
                None => !has_request(self.requests@, name@, sender),
            },
    {
        let mut i: usize = 0;
        while i < self.requests.len()
            invariant
                self.wf(),
                i <= self.requests@.len(),
                forall|j: int|
                    0 <= j < i ==> !((#[trigger] self.requests@[j]).recipient_alias@ == name@
                        && self.requests@[j].sender == sender),
            decreases self.requests@.len() - i,
        {
            if self.requests[i].sender == sender && self.requests[i].recipient_alias == *name {
                proof {
                    let w = request_index(self.requests@, name@, sender);
                    assert(0 <= w < self.requests@.len() && self.requests@[w].recipient_alias@
                        == name@ && self.requests@[w].sender == sender);
                }
                return Some(i);
            }
            i = i + 1;
        }
        None
    }

    /// Registers `alias` to `owner`: validates the name's shape and the
    /// metadata size, refuses a name already taken, and creates the record
    /// active, at version 1, with a fresh identity.
    pub fn register_alias(
        &mut self,
        alias: &String,
        metadata_uri: &String,
        owner: u64,
        now: u64,
    ) -> (r: Result<(), UnikError>)
        requires
            old(self).wf(),
            old(self).next_id < u64::MAX,
        ensures
            final(self).wf(),
            match r {
                Ok(()) => {
                    &&& valid_alias_name(alias@)
                    &&& str_byte_len(metadata_uri@) <= MAX_METADATA_BYTES
                    &&& !has_alias(old(self).aliases@, alias@)
                    &&& (final(self).aliases@ == old(self).aliases@.push(
                        AliasAccount {
                            id: old(self).next_id,
                            owner: owner,
                            alias: *alias,
                            metadata_uri: *metadata_uri,
                            version: 1,
                            is_active: true,
                            registered_at: now,
                        },
                    ))
                    &&& final(self).routes@ == old(self).routes@
                    &&& final(self).stale_routes@ == old(self).stale_routes@
                    &&& final(self).requests@ == old(self).requests@
                    &&& final(self).next_id == old(self).next_id + 1
                },
                Err(e) => {
                    &&& *final(self) == *old(self)
                    &&& (if !(MIN_ALIAS_CHARS <= alias@.len() <= MAX_ALIAS_CHARS) {
                        e == UnikError::InvalidAliasLength
                    } else if !alias_chars_ok(alias@) {
                        e == UnikError::InvalidAliasCharacters
                    } else if !(str_byte_len(metadata_uri@) <= MAX_METADATA_BYTES) {
                        e == UnikError::MetadataTooLong
                    } else {
                        e == UnikError::AlreadyExists && has_alias(old(self).aliases@, alias@)
                    })
                },
            },
    {
        if let Err(e) = validate_alias_name(alias.as_str()) {
            return Err(e);
        }
        if byte_length(metadata_uri) > MAX_METADATA_BYTES {
            return Err(UnikError::MetadataTooLong);
        }
        if self.find_alias(alias).is_some() {
            return Err(UnikError::AlreadyExists);
        }
        let record = AliasAccount {
            id: self.next_id,
            owner: owner,
            alias: alias.clone(),
            metadata_uri: metadata_uri.clone(),
            version: 1,
            is_active: true,
            registered_at: now,
        };
        self.aliases.push(record);
        self.next_id = self.next_id + 1;
        Ok(())
    }

    /// Replaces the metadata URI of `alias`; only its owner may.
    pub fn update_metadata(&mut self, alias: &String, new_uri: &String, caller: u64) -> (r:
        Result<(), UnikError>)
        requires
            old(self).wf(),
        ensures
            final(self).wf(),
            match r {
                Ok(()) => {
                    &&& has_alias(old(self).aliases@, alias@)
                    &&& caller == alias_at(old(self).aliases@, alias@).owner
                    &&& str_byte_len(new_uri@) <= MAX_METADATA_BYTES
                    &&& (final(self).aliases@ == old(self).aliases@.update(
                        alias_index(old(self).aliases@, alias@),
                        AliasAccount {
                            metadata_uri: *new_uri,
                            ..alias_at(old(self).aliases@, alias@)
                        },
                    ))
                    &&& final(self).routes@ == old(self).routes@
                    &&& final(self).stale_routes@ == old(self).stale_routes@
                    &&& final(self).requests@ == old(self).requests@
                    &&& final(self).next_id == old(self).next_id
                },
                Err(e) => {
                    &&& *final(self) == *old(self)
                    &&& (if !has_alias(old(self).aliases@, alias@) {
                        e == UnikError::AliasNotFound
                    } else if caller != alias_at(old(self).aliases@, alias@).owner {
                        e == UnikError::Unauthorized
                    } else {
                        e == UnikError::MetadataTooLong && str_byte_len(new_uri@)
                            > MAX_METADATA_BYTES
                    })
                },
            },
    {
        let i = match self.find_alias(alias) {
            Some(i) => i,
            None => {
                return Err(UnikError::AliasNotFound);
            },
        };
        if self.aliases[i].owner != caller {
            return Err(UnikError::Unauthorized);
        }
        if byte_length(new_uri) > MAX_METADATA_BYTES {
            return Err(UnikError::MetadataTooLong);
        }
        self.aliases[i].metadata_uri = new_uri.clone();
        Ok(())
    }

    /// Turns `alias` off for settlements; only its owner may, and only
    /// while it is active.
    pub fn deactivate(&mut self, alias: &String, caller: u64) -> (r: Result<(), UnikError>)
        requires
            old(self).wf(),
        ensures
            final(self).wf(),
            match r {
                Ok(()) => {
                    &&& has_alias(old(self).aliases@, alias@)
                    &&& caller == alias_at(old(self).aliases@, alias@).owner
                    &&& alias_at(old(self).aliases@, alias@).is_active
                    &&& (final(self).aliases@ == old(self).aliases@.update(
                        alias_index(old(self).aliases@, alias@),
                        AliasAccount { is_active: false, ..alias_at(old(self).aliases@, alias@) },
                    ))
                    &&& final(self).routes@ == old(self).routes@
                    &&& final(self).stale_routes@ == old(self).stale_routes@
                    &&& final(self).requests@ == old(self).requests@
                    &&& final(self).next_id == old(self).next_id
                },
                Err(e) => {
                    &&& *final(self) == *old(self)
                    &&& (if !has_alias(old(self).aliases@, alias@) {
                        e == UnikError::AliasNotFound
                    } else if caller != alias_at(old(self).aliases@, alias@).owner {
                        e == UnikError::Unauthorized
                    } else {
                        e == UnikError::AliasAlreadyInactive && !alias_at(
                            old(self).aliases@,
                            alias@,
                        ).is_active
                    })
                },
            },
    {
        let i = match self.find_alias(alias) {
            Some(i) => i,
            None => {
                return Err(UnikError::AliasNotFound);
            },
        };
        if self.aliases[i].owner != caller {
            return Err(UnikError::Unauthorized);
        }
        if !self.aliases[i].is_active {
            return Err(UnikError::AliasAlreadyInactive);
        }
        self.aliases[i].is_active = false;
        Ok(())
    }

    /// Turns `alias` back on for settlements; only its owner may, and only
    /// while it is inactive.
    pub fn reactivate(&mut self, alias: &String, caller: u64) -> (r: Result<(), UnikError>)
        requires
            old(self).wf(),
        ensures
            final(self).wf(),
            match r {
                Ok(()) => {
                    &&& has_alias(old(self).aliases@, alias@)
                    &&& caller == alias_at(old(self).aliases@, alias@).owner
                    &&& !alias_at(old(self).aliases@, alias@).is_active
                    &&& (final(self).aliases@ == old(self).aliases@.update(
                        alias_index(old(self).aliases@, alias@),
                        AliasAccount { is_active: true, ..alias_at(old(self).aliases@, alias@) },
                    ))
                    &&& final(self).routes@ == old(self).routes@
                    &&& final(self).stale_routes@ == old(self).stale_routes@
                    &&& final(self).requests@ == old(self).requests@
                    &&& final(self).next_id == old(self).next_id
                },
                Err(e) => {
                    &&& *final(self) == *old(self)
                    &&& (if !has_alias(old(self).aliases@, alias@) {
                        e == UnikError::AliasNotFound
                    } else if caller != alias_at(old(self).aliases@, alias@).owner {
                        e == UnikError::Unauthorized
                    } else {
                        e == UnikError::AliasAlreadyActive && alias_at(
                            old(self).aliases@,
                            alias@,
                        ).is_active
                    })
                },
            },
    {
        let i = match self.find_alias(alias) {
            Some(i) => i,
            None => {
                return Err(UnikError::AliasNotFound);
            },
        };
        if self.aliases[i].owner != caller {
            return Err(UnikError::Unauthorized);
        }
        if self.aliases[i].is_active {
            return Err(UnikError::AliasAlreadyActive);
        }
        self.aliases[i].is_active = true;
        Ok(())
    }

    /// Deletes the record of `alias`; only its owner may. The name becomes
    /// free at once for an unrelated registration; a route configured under
    /// the old record is not cascaded away and keeps its stale
    /// back-reference.
    pub fn delete_alias(&mut self, alias: &String, caller: u64) -> (r: Result<(), UnikError>)
        requires
            old(self).wf(),
        ensures
            final(self).wf(),
            match r {
                Ok(()) => {
                    &&& has_alias(old(self).aliases@, alias@)
                    &&& caller == alias_at(old(self).aliases@, alias@).owner
                    &&& (final(self).aliases@ == old(self).aliases@.remove(
                        alias_index(old(self).aliases@, alias@),
                    ))
                    &&& final(self).routes@ == old(self).routes@
                    &&& final(self).stale_routes@ == old(self).stale_routes@
                    &&& final(self).requests@ == old(self).requests@
                    &&& final(self).next_id == old(self).next_id
                },
                Err(e) => {
                    &&& *final(self) == *old(self)
                    &&& (if !has_alias(old(self).aliases@, alias@) {
                        e == UnikError::AliasNotFound
                    } else {
                        e == UnikError::Unauthorized && caller != alias_at(
                            old(self).aliases@,
                            alias@,
                        ).owner
                    })
                },
            },
    {
        let i = match self.find_alias(alias) {
            Some(i) => i,
            None => {
                return Err(UnikError::AliasNotFound);
            },
        };
        if self.aliases[i].owner != caller {
            return Err(UnikError::Unauthorized);
        }
        self.aliases.remove(i);
        Ok(())
    }

    /// Records a "please pay me" note from `sender` against `alias`. No
    /// funds move; the note is immutable once stored, and one note exists
    /// per (alias, sender) pair.
    pub fn create_payment_request(
        &mut self,
        sender: u64,
        recipient_alias: &String,
        amount: u64,
        concept: &String,
        now: u64,
    ) -> (r: Result<(), UnikError>)
        requires
            old(self).wf(),
        ensures
            final(self).wf(),
            match r {
                Ok(()) => {
                    &&& str_byte_len(concept@) <= MAX_CONCEPT_BYTES
                    &&& !has_request(old(self).requests@, recipient_alias@, sender)
                    &&& (final(self).requests@ == old(self).requests@.push(
                        PaymentRequest {
                            sender: sender,
                            recipient_alias: *recipient_alias,
                            amount: amount,
                            concept: *concept,
                            timestamp: now,
                        },
                    ))
                    &&& final(self).aliases@ == old(self).aliases@
                    &&& final(self).routes@ == old(self).routes@
                    &&& final(self).stale_routes@ == old(self).stale_routes@
                    &&& final(self).next_id == old(self).next_id
                },
                Err(e) => {
                    &&& *final(self) == *old(self)
                    &&& (if !(str_byte_len(concept@) <= MAX_CONCEPT_BYTES) {
                        e == UnikError::ConceptTooLong
                    } else {
                        e == UnikError::RequestAlreadyExists && has_request(
                            old(self).requests@,
                            recipient_alias@,
                            sender,
                        )
                    })
                },
            },
    {
        if byte_length(concept) > MAX_CONCEPT_BYTES {
            return Err(UnikError::ConceptTooLong);
        }
        if self.find_request(recipient_alias, sender).is_some() {
            return Err(UnikError::RequestAlreadyExists);
        }
        let record = PaymentRequest {
            sender: sender,
            recipient_alias: recipient_alias.clone(),
            amount: amount,
            concept: concept.clone(),
            timestamp: now,
        };
        self.requests.push(record);
        Ok(())
    }

    /// Closes the request keyed by (`recipient_alias`, `sender`): a pure
    /// cleanup, permitted to the original sender or to the alias's current
    /// owner.
    pub fn close_payment_request(
        &mut self,
        recipient_alias: &String,
        sender: u64,
        caller: u64,
    ) -> (r: Result<(), UnikError>)
        requires
            old(self).wf(),
        ensures
            final(self).wf(),
            match r {
                Ok(()) => {
                    &&& has_request(old(self).requests@, recipient_alias@, sender)
                    &&& (caller == sender || (has_alias(old(self).aliases@, recipient_alias@)
                        && caller == alias_at(old(self).aliases@, recipient_alias@).owner))
                    &&& (final(self).requests@ == old(self).requests@.remove(
                        request_index(old(self).requests@, recipient_alias@, sender),
                    ))
                    &&& final(self).aliases@ == old(self).aliases@
                    &&& final(self).routes@ == old(self).routes@
                    &&& final(self).stale_routes@ == old(self).stale_routes@
                    &&& final(self).next_id == old(self).next_id
                },
                Err(e) => {
                    &&& *final(self) == *old(self)
                    &&& (if !has_request(old(self).requests@, recipient_alias@, sender) {
                        e == UnikError::RequestNotFound
                    } else {
                        e == UnikError::Unauthorized && caller != sender && !(has_alias(
                            old(self).aliases@,
                            recipient_alias@,
                        ) && caller == alias_at(old(self).aliases@, recipient_alias@).owner)
                    })
                },
            },
    {
        let i = match self.find_request(recipient_alias, sender) {
            Some(i) => i,
            None => {
                return Err(UnikError::RequestNotFound);
            },
        };
        let mut authorized = caller == sender;
        if !authorized {
            if let Some(a) = self.find_alias(recipient_alias) {
                authorized = self.aliases[a].owner == caller;
            }
        }
        if !authorized {
            return Err(UnikError::Unauthorized);
        }
        self.requests.remove(i);
        Ok(())
    }
}

} // verus!
