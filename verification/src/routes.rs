//! The route registry: configuring, replacing and deleting the weighted
//! recipient list of an alias, and force-retiring legacy route blobs that
//! the current schema can no longer read.

use vstd::prelude::*;

use crate::errors::UnikError;
use crate::records::{RouteAccount, Split, StaleRoute, MAX_SPLITS};
use crate::registry::{
    alias_at, has_alias, has_route, has_stale_route, no_self_reference, route_at, route_index,
    splits_well_formed, Registry,
};
use crate::split_math::{lemma_sum_weights_skip, sum_weights};

verus! {

/// Sums a split list's weights in basis points; at most 5 entries, so the
/// sum stays far below any machine bound.
fn splits_weight_total(splits: &Vec<Split>) -> (t: u64)
    requires
        splits@.len() <= MAX_SPLITS,
    ensures
        t == sum_weights(splits@),
{
    let mut t: u64 = 0;
    let n = splits.len();
    let mut i: usize = 0;
    proof {
        assert(splits@.skip(0) =~= splits@);
    }
    while i < n
        invariant
            n == splits@.len(),
            n <= MAX_SPLITS,
            i <= n,
            t <= i * 65535,
            t + sum_weights(splits@.skip(i as int)) == sum_weights(splits@),
        decreases n - i,
    {
        proof {
            lemma_sum_weights_skip(splits@, i as int);
        }
        t = t + splits[i].percentage as u64;
        i = i + 1;
    }
    proof {
        assert(splits@.skip(n as int) =~= Seq::<Split>::empty());
    }
    t
}

/// True exactly when two splits name the same recipient.
fn has_duplicate_recipient(splits: &Vec<Split>) -> (b: bool)
    ensures
        b <==> !(forall|i: int, j: int|
            0 <= i < j < splits@.len() ==> (#[trigger] splits@[i]).recipient != (
            #[trigger] splits@[j]).recipient),
{
    let n = splits.len();
    let mut i: usize = 0;
    while i < n
        invariant
            n == splits@.len(),
            i <= n,
            forall|p: int, q: int|
                0 <= p < q < n && p < i ==> (#[trigger] splits@[p]).recipient != (
                #[trigger] splits@[q]).recipient,
        decreases n - i,
    {
        let mut j: usize = i + 1;
        while j < n
            invariant
                n == splits@.len(),
                i < n,
                i < j <= n,
                forall|q: int|
                    i < q < j ==> (#[trigger] splits@[q]).recipient != splits@[i as int].recipient,
            decreases n - j,
        {
            if splits[j].recipient == splits[i].recipient {
                return true;
            }
            j = j + 1;
        }
        i = i + 1;
    }
    false
}

/// True exactly when some split pays `alias_ref` or `route_id` itself.
fn has_self_reference(splits: &Vec<Split>, alias_ref: u64, route_id: u64) -> (b: bool)
    ensures
        b <==> !no_self_reference(splits@, alias_ref, route_id),
{
    let n = splits.len();
    let mut i: usize = 0;
    while i < n
        invariant
            n == splits@.len(),
            i <= n,
            forall|j: int|
                0 <= j < i ==> (#[trigger] splits@[j]).recipient != alias_ref && splits@[j].recipient
                    != route_id,
        decreases n - i,
    {
        if splits[i].recipient == alias_ref || splits[i].recipient == route_id {
            return true;
        }
        i = i + 1;
    }
    false
}

impl Registry {
    /// Creates an empty route record for `alias`; only the alias owner
    /// may, and only where no route record (current or legacy) sits yet.
    pub fn init_route(&mut self, alias: &String, caller: u64) -> (r: Result<(), UnikError>)
        requires
            old(self).wf(),
            old(self).next_id < u64::MAX,
        ensures
            final(self).wf(),
            match r {
                Ok(()) => {
                    &&& has_alias(old(self).aliases@, alias@)
                    &&& caller == alias_at(old(self).aliases@, alias@).owner
                    &&& !has_stale_route(old(self).stale_routes@, alias@)
                    &&& !has_route(old(self).routes@, alias@)
                    &&& (final(self).routes@ == old(self).routes@.push(
                        final(self).routes@.last(),
                    ))
                    &&& final(self).routes@.last().id == old(self).next_id
                    &&& final(self).routes@.last().alias_ref == alias_at(
                        old(self).aliases@,
                        alias@,
                    ).id
                    &&& final(self).routes@.last().alias == *alias
                    &&& final(self).routes@.last().splits@ == Seq::<Split>::empty()
                    &&& final(self).aliases@ == old(self).aliases@
                    &&& final(self).stale_routes@ == old(self).stale_routes@
                    &&& final(self).requests@ == old(self).requests@
                    &&& final(self).next_id == old(self).next_id + 1
                },
                Err(e) => {
                    &&& *final(self) == *old(self)
                    &&& (if !has_alias(old(self).aliases@, alias@) {
                        e == UnikError::AliasNotFound
                    } else if caller != alias_at(old(self).aliases@, alias@).owner {
                        e == UnikError::Unauthorized
                    } else if has_stale_route(old(self).stale_routes@, alias@) {
                        e == UnikError::RouteRecordStale
                    } else {
                        e == UnikError::AlreadyExists && has_route(old(self).routes@, alias@)
                    })
                },
            },
    {
        let a = match self.find_alias(alias) {
            Some(a) => a,
            None => {
                return Err(UnikError::AliasNotFound);
            },
        };
        if self.aliases[a].owner != caller {
            return Err(UnikError::Unauthorized);
        }
        if self.find_stale_route(alias).is_some() {
            return Err(UnikError::RouteRecordStale);
        }
        if self.find_route(alias).is_some() {
            return Err(UnikError::AlreadyExists);
        }
        let record = RouteAccount {
            id: self.next_id,
            alias_ref: self.aliases[a].id,
            alias: alias.clone(),
            splits: Vec::new(),
        };
        self.routes.push(record);
        self.next_id = self.next_id + 1;
        Ok(())
    }

    /// Sets the full split list of `alias`'s route atomically, creating
    /// the route if none exists; only the alias owner may. The list must
    /// hold at most 5 splits whose weights sum to exactly 10000 basis
    /// points, with no recipient twice and none the route's or the alias
    /// record's own identity; the route's back-reference is re-bound to
    /// the current alias record.
    pub fn set_route_config(&mut self, alias: &String, caller: u64, splits: Vec<Split>) -> (r:
        Result<(), UnikError>)
        requires
            old(self).wf(),
            old(self).next_id < u64::MAX,
        ensures
            final(self).wf(),
            match r {
                Ok(()) => {
                    &&& has_alias(old(self).aliases@, alias@)
                    &&& caller == alias_at(old(self).aliases@, alias@).owner
                    &&& !has_stale_route(old(self).stale_routes@, alias@)
                    &&& splits@.len() <= MAX_SPLITS
                    &&& sum_weights(splits@) == 10000
                    &&& splits_well_formed(splits@)
                    &&& final(self).aliases@ == old(self).aliases@
                    &&& final(self).stale_routes@ == old(self).stale_routes@
                    &&& final(self).requests@ == old(self).requests@
                    &&& (if has_route(old(self).routes@, alias@) {
                        {
                            &&& no_self_reference(
                                splits@,
                                alias_at(old(self).aliases@, alias@).id,
                                route_at(old(self).routes@, alias@).id,
                            )
                            &&& (final(self).routes@ == old(self).routes@.update(
                                route_index(old(self).routes@, alias@),
                                RouteAccount {
                                    id: route_at(old(self).routes@, alias@).id,
                                    alias_ref: alias_at(old(self).aliases@, alias@).id,
                                    alias: route_at(old(self).routes@, alias@).alias,
                                    splits: splits,
                                },
                            ))
                            &&& final(self).next_id == old(self).next_id
                        }
                    } else {
                        {
                            &&& no_self_reference(
                                splits@,
                                alias_at(old(self).aliases@, alias@).id,
                                old(self).next_id,
                            )
                            &&& (final(self).routes@ == old(self).routes@.push(
                                RouteAccount {
                                    id: old(self).next_id,
                                    alias_ref: alias_at(old(self).aliases@, alias@).id,
                                    alias: *alias,
                                    splits: splits,
                                },
                            ))
                            &&& final(self).next_id == old(self).next_id + 1
                        }
                    })
                },
                Err(e) => {
                    &&& *final(self) == *old(self)
                    &&& (if !has_alias(old(self).aliases@, alias@) {
                        e == UnikError::AliasNotFound
                    } else if caller != alias_at(old(self).aliases@, alias@).owner {
                        e == UnikError::Unauthorized
                    } else if has_stale_route(old(self).stale_routes@, alias@) {
                        e == UnikError::RouteRecordStale
                    } else if !(splits@.len() <= MAX_SPLITS) {
                        e == UnikError::TooManySplits
                    } else if sum_weights(splits@) != 10000 {
                        e == UnikError::InvalidSplitTotal
                    } else if !(forall|i: int, j: int|
                        0 <= i < j < splits@.len() ==> (#[trigger] splits@[i]).recipient != (
                        #[trigger] splits@[j]).recipient) {
                        e == UnikError::DuplicateRecipient
                    } else {
                        e == UnikError::SelfReference && !no_self_reference(
                            splits@,
                            alias_at(old(self).aliases@, alias@).id,
                            (if has_route(old(self).routes@, alias@) {
                                route_at(old(self).routes@, alias@).id
                            } else {
                                old(self).next_id
                            }),
                        )
                    })
                },
            },
    {
        let a = match self.find_alias(alias) {
            Some(a) => a,
            None => {
                return Err(UnikError::AliasNotFound);
            },
        };
        if self.aliases[a].owner != caller {
            return Err(UnikError::Unauthorized);
        }
        if self.find_stale_route(alias).is_some() {
            return Err(UnikError::RouteRecordStale);
        }
        if splits.len() > MAX_SPLITS {
            return Err(UnikError::TooManySplits);
        }
        if splits_weight_total(&splits) != 10000 {
            return Err(UnikError::InvalidSplitTotal);
        }
        if has_duplicate_recipient(&splits) {
            return Err(UnikError::DuplicateRecipient);
        }
        let alias_ref = self.aliases[a].id;
        let existing = self.find_route(alias);
        let route_id = match existing {
            Some(j) => self.routes[j].id,
            None => self.next_id,
        };
        if has_self_reference(&splits, alias_ref, route_id) {
            return Err(UnikError::SelfReference);
        }
        match existing {
            Some(j) => {
                self.routes[j].alias_ref = alias_ref;
                self.routes[j].splits = splits;
            },
            None => {
                let record = RouteAccount {
                    id: self.next_id,
                    alias_ref: alias_ref,
                    alias: alias.clone(),
                    splits: splits,
                };
                self.routes.push(record);
                self.next_id = self.next_id + 1;
            },
        }
        Ok(())
    }

    /// Deletes the route record of `alias`; only the alias owner may, and
    /// a legacy blob must go through `migrate_stale` instead.
    pub fn delete_route(&mut self, alias: &String, caller: u64) -> (r: Result<(), UnikError>)
        requires
            old(self).wf(),
        ensures
            final(self).wf(),
            match r {
                Ok(()) => {
                    &&& has_alias(old(self).aliases@, alias@)
                    &&& caller == alias_at(old(self).aliases@, alias@).owner
                    &&& has_route(old(self).routes@, alias@)
                    &&& (final(self).routes@ == old(self).routes@.remove(
                        route_index(old(self).routes@, alias@),
                    ))
                    &&& final(self).aliases@ == old(self).aliases@
                    &&& final(self).stale_routes@ == old(self).stale_routes@
                    &&& final(self).requests@ == old(self).requests@
                    &&& final(self).next_id == old(self).next_id
                },
                Err(e) => {
                    &&& *final(self) == *old(self)
                    &&& (if !has_alias(old(self).aliases@, alias@) {
                        e == UnikError::AliasNotFound
                    } else if caller != alias_at(old(self).aliases@, alias@).owner {
                        e == UnikError::Unauthorized
                    } else if has_stale_route(old(self).stale_routes@, alias@) {
                        e == UnikError::RouteRecordStale
                    } else {
                        e == UnikError::RouteNotFound && !has_route(old(self).routes@, alias@)
                    })
                },
            },
    {
        let a = match self.find_alias(alias) {
            Some(a) => a,
            None => {
                return Err(UnikError::AliasNotFound);
            },
        };
        if self.aliases[a].owner != caller {
            return Err(UnikError::Unauthorized);
        }
        if self.find_stale_route(alias).is_some() {
            return Err(UnikError::RouteRecordStale);
        }
        let j = match self.find_route(alias) {
            Some(j) => j,
            None => {
                return Err(UnikError::RouteNotFound);
            },
        };
        self.routes.remove(j);
        Ok(())
    }

    /// Installs a route blob as an earlier schema revision persisted it:
    /// an opaque payload at the address derived from `derived_from`, never
    /// deserialized here, retirable only through `migrate_stale`. Models
    /// what the persistence substrate hands over after a breaking format
    /// change; refuses an address some record already occupies.
    pub fn install_legacy_route(&mut self, record: StaleRoute) -> (r: Result<(), UnikError>)
        requires
            old(self).wf(),
        ensures
            final(self).wf(),
            match r {
                Ok(()) => {
                    &&& !has_route(old(self).routes@, record.derived_from@)
                    &&& !has_stale_route(old(self).stale_routes@, record.derived_from@)
                    &&& final(self).stale_routes@ == old(self).stale_routes@.push(record)
                    &&& final(self).aliases@ == old(self).aliases@
                    &&& final(self).routes@ == old(self).routes@
                    &&& final(self).requests@ == old(self).requests@
                    &&& final(self).next_id == old(self).next_id
                },
                Err(e) => {
                    &&& *final(self) == *old(self)
                    &&& e == UnikError::AlreadyExists
                    &&& (has_route(old(self).routes@, record.derived_from@) || has_stale_route(
                        old(self).stale_routes@,
                        record.derived_from@,
                    ))
                },
            },
    {
        if self.find_route(&record.derived_from).is_some() {
            return Err(UnikError::AlreadyExists);
        }
        if self.find_stale_route(&record.derived_from).is_some() {
            return Err(UnikError::AlreadyExists);
        }
        self.stale_routes.push(record);
        Ok(())
    }

    /// Force-retires the legacy route blob at index `target`, without
    /// interpreting its contents. Succeeds only when the caller is the
    /// current owner of `alias`, the blob's derived address matches
    /// `alias`, and this subsystem owns the blob; any mismatch fails
    /// closed.
    pub fn migrate_stale(&mut self, alias: &String, caller: u64, target: usize) -> (r: Result<
        (),
        UnikError,
    >)
        requires
            old(self).wf(),
        ensures
            final(self).wf(),
            match r {
                Ok(()) => {
                    &&& has_alias(old(self).aliases@, alias@)
                    &&& caller == alias_at(old(self).aliases@, alias@).owner
                    &&& target < old(self).stale_routes@.len()
                    &&& old(self).stale_routes@[target as int].derived_from@ == alias@
                    &&& old(self).stale_routes@[target as int].subsystem_owned
                    &&& final(self).stale_routes@ == old(self).stale_routes@.remove(target as int)
                    &&& final(self).aliases@ == old(self).aliases@
                    &&& final(self).routes@ == old(self).routes@
                    &&& final(self).requests@ == old(self).requests@
                    &&& final(self).next_id == old(self).next_id
                },
                Err(e) => {
                    &&& *final(self) == *old(self)
                    &&& (if !has_alias(old(self).aliases@, alias@) {
                        e == UnikError::AliasNotFound
                    } else if caller != alias_at(old(self).aliases@, alias@).owner {
                        e == UnikError::Unauthorized
                    } else if !(target < old(self).stale_routes@.len()) {
                        e == UnikError::RouteNotFound
                    } else if old(self).stale_routes@[target as int].derived_from@ != alias@ {
                        e == UnikError::AddressMismatch
                    } else {
                        e == UnikError::ForeignRecord && !old(
                            self,
                        ).stale_routes@[target as int].subsystem_owned
                    })
                },
            },
    {
        let a = match self.find_alias(alias) {
            Some(a) => a,
            None => {
                return Err(UnikError::AliasNotFound);
            },
        };
        if self.aliases[a].owner != caller {
            return Err(UnikError::Unauthorized);
        }
        if target >= self.stale_routes.len() {
            return Err(UnikError::RouteNotFound);
        }
        if !(self.stale_routes[target].derived_from == *alias) {
            return Err(UnikError::AddressMismatch);
        }
        if !self.stale_routes[target].subsystem_owned {
            return Err(UnikError::ForeignRecord);
        }
        self.stale_routes.remove(target);
        Ok(())
    }
}

} // verus!
