//! The settlement engine: dividing an incoming amount across a route's
//! splits and instructing the external ledger, after re-checking the
//! alias's activation and the route's back-reference against the records
//! as they stand now.
//!
//! Settlement never moves funds itself: it returns the exact transfer
//! instructions, in split order, for the substrate to execute atomically.

use vstd::prelude::*;

use crate::errors::UnikError;
use crate::records::{
    sub_account_of, Split, SubAccount, TokenTransferInstruction, TransferInstruction,
};
use crate::records::derive_sub_account;
use crate::registry::{
    alias_at, has_alias, has_route, has_stale_route, route_at, route_index, Registry,
};
use crate::split_math::{
    compute_split, lemma_split_sum_within_total, spec_split, sum_split_amounts,
};

verus! {

/// The dust floor: a settlement amount below this is rejected outright,
/// since most computed shares of it would round to nothing.
pub const MIN_PAYMENT_AMOUNT: u64 = 10000;

/// The outcome of walking a split list in order against the recipient
/// identities the caller made available: the first split whose recipient
/// is missing or whose share overflows aborts the whole settlement;
/// otherwise each non-zero share becomes one instruction, in list order.
pub open spec fn settle_splits(splits: Seq<Split>, amount: u64, provided: Seq<u64>) -> Result<
    Seq<TransferInstruction>,
    UnikError,
>
    decreases splits.len(),
{
    if splits.len() == 0 {
        Ok(Seq::empty())
    } else if !provided.contains(splits[0].recipient) {
        Err(UnikError::MissingRecipient)
    } else if amount * splits[0].percentage > u64::MAX {
        Err(UnikError::Overflow)
    } else {
        match settle_splits(splits.drop_first(), amount, provided) {
            Ok(rest) => Ok(
                if spec_split(amount, splits[0].percentage) > 0 {
                    seq![
                        TransferInstruction {
                            to: splits[0].recipient,
                            amount: spec_split(amount, splits[0].percentage) as u64,
                        },
                    ] + rest
                } else {
                    rest
                },
            ),
            Err(e) => Err(e),
        }
    }
}

/// The sub-account the caller claims for `recipient`, taking the first
/// matching entry in the order supplied.
pub open spec fn find_claim(provided: Seq<(u64, SubAccount)>, recipient: u64) -> Option<SubAccount>
    decreases provided.len(),
{
    if provided.len() == 0 {
        None
    } else if provided[0].0 == recipient {
        Some(provided[0].1)
    } else {
        find_claim(provided.drop_first(), recipient)
    }
}

/// The token analogue of [`settle_splits`]: each recipient's transfer
/// target is its sub-account derived from (recipient, token), recomputed
/// here and compared against the caller's claim — a claim that does not
/// match aborts the settlement rather than redirecting funds.
pub open spec fn settle_token_splits(
    splits: Seq<Split>,
    amount: u64,
    token: u64,
    provided: Seq<(u64, SubAccount)>,
) -> Result<Seq<TokenTransferInstruction>, UnikError>
    decreases splits.len(),
{
    if splits.len() == 0 {
        Ok(Seq::empty())
    } else {
        match find_claim(provided, splits[0].recipient) {
            None => Err(UnikError::MissingRecipient),
            Some(claim) => {
                if claim != sub_account_of(splits[0].recipient, token) {
                    Err(UnikError::AddressMismatch)
                } else if amount * splits[0].percentage > u64::MAX {
                    Err(UnikError::Overflow)
                } else {
                    match settle_token_splits(splits.drop_first(), amount, token, provided) {
                        Ok(rest) => Ok(
                            if spec_split(amount, splits[0].percentage) > 0 {
                                seq![
                                    TokenTransferInstruction {
                                        to: sub_account_of(splits[0].recipient, token),
                                        amount: spec_split(amount, splits[0].percentage) as u64,
                                    },
                                ] + rest
                            } else {
                                rest
                            },
                        ),
                        Err(e) => Err(e),
                    }
                }
            },
        }
    }
}

/// What a base-unit settlement of `amount` against `alias` returns, given
/// the records as they stand: the dust floor first, then the alias's
/// existence and activation, then the route's existence, readability and
/// back-reference, then the splits in order.
pub open spec fn settle_spec(reg: Registry, alias: Seq<char>, amount: u64, provided: Seq<u64>) -> Result<
    Seq<TransferInstruction>,
    UnikError,
> {
    if amount < MIN_PAYMENT_AMOUNT {
        Err(UnikError::AmountTooSmall)
    } else if !has_alias(reg.aliases@, alias) {
        Err(UnikError::AliasNotFound)
    } else if !alias_at(reg.aliases@, alias).is_active {
        Err(UnikError::AliasInactive)
    } else if has_stale_route(reg.stale_routes@, alias) {
        Err(UnikError::RouteRecordStale)
    } else if !has_route(reg.routes@, alias) {
        Err(UnikError::RouteNotFound)
    } else if route_at(reg.routes@, alias).alias_ref != alias_at(reg.aliases@, alias).id {
        Err(UnikError::RouteMismatch)
    } else {
        settle_splits(route_at(reg.routes@, alias).splits@, amount, provided)
    }
}

/// The token analogue of [`settle_spec`].
pub open spec fn settle_token_spec(
    reg: Registry,
    alias: Seq<char>,
    token: u64,
    amount: u64,
    provided: Seq<(u64, SubAccount)>,
) -> Result<Seq<TokenTransferInstruction>, UnikError> {
    if amount < MIN_PAYMENT_AMOUNT {
        Err(UnikError::AmountTooSmall)
    } else if !has_alias(reg.aliases@, alias) {
        Err(UnikError::AliasNotFound)
    } else if !alias_at(reg.aliases@, alias).is_active {
        Err(UnikError::AliasInactive)
    } else if has_stale_route(reg.stale_routes@, alias) {
        Err(UnikError::RouteRecordStale)
    } else if !has_route(reg.routes@, alias) {
        Err(UnikError::RouteNotFound)
    } else if route_at(reg.routes@, alias).alias_ref != alias_at(reg.aliases@, alias).id {
        Err(UnikError::RouteMismatch)
    } else {
        settle_token_splits(route_at(reg.routes@, alias).splits@, amount, token, provided)
    }
}

/// The total the instructions of a settlement move.
pub open spec fn sum_instruction_amounts(instrs: Seq<TransferInstruction>) -> int
    decreases instrs.len(),
{
    if instrs.len() == 0 {
        0
    } else {
        instrs[0].amount + sum_instruction_amounts(instrs.drop_first())
    }
}

/// The total the token instructions of a settlement move.
pub open spec fn sum_token_instruction_amounts(instrs: Seq<TokenTransferInstruction>) -> int
    decreases instrs.len(),
{
    if instrs.len() == 0 {
        0
    } else {
        instrs[0].amount + sum_token_instruction_amounts(instrs.drop_first())
    }
}

/// Settling one split further unfolds the head recursion at `i`.
proof fn lemma_settle_splits_skip(splits: Seq<Split>, i: int, amount: u64, provided: Seq<u64>)
    requires
        0 <= i < splits.len(),
    ensures
        settle_splits(splits.skip(i), amount, provided) == (if !provided.contains(
            splits[i].recipient,
        ) {
            Err::<Seq<TransferInstruction>, UnikError>(UnikError::MissingRecipient)
        } else if amount * splits[i].percentage > u64::MAX {
            Err::<Seq<TransferInstruction>, UnikError>(UnikError::Overflow)
        } else {
            match settle_splits(splits.skip(i + 1), amount, provided) {
                Ok(rest) => Ok::<Seq<TransferInstruction>, UnikError>(
                    if spec_split(amount, splits[i].percentage) > 0 {
                        seq![
                            TransferInstruction {
                                to: splits[i].recipient,
                                amount: spec_split(amount, splits[i].percentage) as u64,
                            },
                        ] + rest
                    } else {
                        rest
                    },
                ),
                Err(e) => Err::<Seq<TransferInstruction>, UnikError>(e),
            }
        }),
{
    assert(splits.skip(i).drop_first() =~= splits.skip(i + 1));
    assert(splits.skip(i)[0] == splits[i]);
}

/// The token analogue of [`lemma_settle_splits_skip`].
proof fn lemma_settle_token_splits_skip(
    splits: Seq<Split>,
    i: int,
    amount: u64,
    token: u64,
    provided: Seq<(u64, SubAccount)>,
)
    requires
        0 <= i < splits.len(),
    ensures
        settle_token_splits(splits.skip(i), amount, token, provided) == (match find_claim(
            provided,
            splits[i].recipient,
        ) {
            None => Err::<Seq<TokenTransferInstruction>, UnikError>(UnikError::MissingRecipient),
            Some(claim) => {
                if claim != sub_account_of(splits[i].recipient, token) {
                    Err::<Seq<TokenTransferInstruction>, UnikError>(UnikError::AddressMismatch)
                } else if amount * splits[i].percentage > u64::MAX {
                    Err::<Seq<TokenTransferInstruction>, UnikError>(UnikError::Overflow)
                } else {
                    match settle_token_splits(splits.skip(i + 1), amount, token, provided) {
                        Ok(rest) => Ok::<Seq<TokenTransferInstruction>, UnikError>(
                            if spec_split(amount, splits[i].percentage) > 0 {
                                seq![
                                    TokenTransferInstruction {
                                        to: sub_account_of(splits[i].recipient, token),
                                        amount: spec_split(amount, splits[i].percentage) as u64,
                                    },
                                ] + rest
                            } else {
                                rest
                            },
                        ),
                        Err(e) => Err::<Seq<TokenTransferInstruction>, UnikError>(e),
                    }
                }
            },
        }),
{
    assert(splits.skip(i).drop_first() =~= splits.skip(i + 1));
    assert(splits.skip(i)[0] == splits[i]);
}

/// A successful settlement moves exactly the summed shares of its splits.
proof fn lemma_settle_sum(splits: Seq<Split>, amount: u64, provided: Seq<u64>)
    ensures
        match settle_splits(splits, amount, provided) {
            Ok(out) => sum_instruction_amounts(out) == sum_split_amounts(amount, splits),
            Err(_) => true,
        },
    decreases splits.len(),
{
    if splits.len() == 0 {
    } else {
        lemma_settle_sum(splits.drop_first(), amount, provided);
        match settle_splits(splits.drop_first(), amount, provided) {
            Ok(rest) => {
                if provided.contains(splits[0].recipient) && amount * splits[0].percentage
                    <= u64::MAX && spec_split(amount, splits[0].percentage) > 0 {
                    let head = TransferInstruction {
                        to: splits[0].recipient,
                        amount: spec_split(amount, splits[0].percentage) as u64,
                    };
                    assert((seq![head] + rest).drop_first() =~= rest);
                    assert((seq![head] + rest)[0] == head);
                }
            },
            Err(_) => {},
        }
    }
}

/// The token analogue of [`lemma_settle_sum`].
proof fn lemma_settle_token_sum(
    splits: Seq<Split>,
    amount: u64,
    token: u64,
    provided: Seq<(u64, SubAccount)>,
)
    ensures
        match settle_token_splits(splits, amount, token, provided) {
            Ok(out) => sum_token_instruction_amounts(out) == sum_split_amounts(amount, splits),
            Err(_) => true,
        },
    decreases splits.len(),
{
    if splits.len() == 0 {
    } else {
        lemma_settle_token_sum(splits.drop_first(), amount, token, provided);
        match settle_token_splits(splits.drop_first(), amount, token, provided) {
            Ok(rest) => {
                if find_claim(provided, splits[0].recipient) == Some(
                    sub_account_of(splits[0].recipient, token),
                ) && amount * splits[0].percentage <= u64::MAX && spec_split(
                    amount,
                    splits[0].percentage,
                ) > 0 {
                    let head = TokenTransferInstruction {
                        to: sub_account_of(splits[0].recipient, token),
                        amount: spec_split(amount, splits[0].percentage) as u64,
                    };
                    assert((seq![head] + rest).drop_first() =~= rest);
                    assert((seq![head] + rest)[0] == head);
                }
            },
            Err(_) => {},
        }
    }
}

/// A zero-valued computed split is skipped, not an error: every
/// instruction a settlement returns moves a positive amount.
pub proof fn lemma_settlement_instructions_positive(
    splits: Seq<Split>,
    amount: u64,
    provided: Seq<u64>,
)
    ensures
        match settle_splits(splits, amount, provided) {
            Ok(out) => forall|i: int| 0 <= i < out.len() ==> (#[trigger] out[i]).amount > 0,
            Err(_) => true,
        },
    decreases splits.len(),
{
    if splits.len() > 0 {
        lemma_settlement_instructions_positive(splits.drop_first(), amount, provided);
    }
}

/// Whether `x` is among the recipient identities the caller supplied.
fn provided_contains(provided: &Vec<u64>, x: u64) -> (b: bool)
    ensures
        b == provided@.contains(x),
{
    let n = provided.len();
    let mut i: usize = 0;
    while i < n
        invariant
            n == provided@.len(),
            i <= n,
            forall|j: int| 0 <= j < i ==> provided@[j] != x,
        decreases n - i,
    {
        if provided[i] == x {
            assert(provided@[i as int] == x);
            return true;
        }
        i = i + 1;
    }
    false
}

/// The first sub-account the caller claims for `recipient`, if any.
fn find_claim_exec(provided: &Vec<(u64, SubAccount)>, recipient: u64) -> (r: Option<SubAccount>)
    ensures
        r == find_claim(provided@, recipient),
{
    let n = provided.len();
    let mut i: usize = 0;
    proof {
        assert(provided@.skip(0) =~= provided@);
    }
    while i < n
        invariant
            n == provided@.len(),
            i <= n,
            find_claim(provided@, recipient) == find_claim(provided@.skip(i as int), recipient),
        decreases n - i,
    {
        proof {
            assert(provided@.skip(i as int).drop_first() =~= provided@.skip(i as int + 1));
            assert(provided@.skip(i as int)[0] == provided@[i as int]);
        }
        if provided[i].0 == recipient {
            return Some(provided[i].1);
        }
        i = i + 1;
    }
    proof {
        assert(provided@.skip(n as int) =~= Seq::<(u64, SubAccount)>::empty());
    }
    None
}

impl Registry {
    /// Settles `amount` base units against `alias`: re-checks the dust
    /// floor, the alias's activation and the route's back-reference, then
    /// computes every split's share in order and returns one transfer
    /// instruction per non-zero share for the ledger to execute. The
    /// instructions never move more than `amount` in total; the floor
    /// remainder stays with the payer.
    pub fn execute_transfer(&self, alias: &String, amount: u64, provided: &Vec<u64>) -> (r:
        Result<Vec<TransferInstruction>, UnikError>)
        requires
            self.wf(),
        ensures
            match r {
                Ok(v) => {
                    &&& settle_spec(*self, alias@, amount, provided@) == Ok::<
                        Seq<TransferInstruction>,
                        UnikError,
                    >(v@)
                    &&& sum_instruction_amounts(v@) <= amount
                },
                Err(e) => settle_spec(*self, alias@, amount, provided@) == Err::<
                    Seq<TransferInstruction>,
                    UnikError,
                >(e),
            },
    {
        if amount < MIN_PAYMENT_AMOUNT {
            return Err(UnikError::AmountTooSmall);
        }
        let a = match self.find_alias(alias) {
            Some(a) => a,
            None => {
                return Err(UnikError::AliasNotFound);
            },
        };
        if !self.aliases[a].is_active {
            return Err(UnikError::AliasInactive);
        }
        if self.find_stale_route(alias).is_some() {
            return Err(UnikError::RouteRecordStale);
        }
        let ri = match self.find_route(alias) {
            Some(ri) => ri,
            None => {
                return Err(UnikError::RouteNotFound);
            },
        };
        if self.routes[ri].alias_ref != self.aliases[a].id {
            return Err(UnikError::RouteMismatch);
        }
        let ghost gsplits = self.routes@[ri as int].splits@;
        let mut out: Vec<TransferInstruction> = Vec::new();
        let n = self.routes[ri].splits.len();
        let mut i: usize = 0;
        proof {
            assert(gsplits.skip(0) =~= gsplits);
        }
        while i < n
            invariant
                self.wf(),
                ri < self.routes@.len(),
                amount >= MIN_PAYMENT_AMOUNT,
                has_alias(self.aliases@, alias@),
                alias_at(self.aliases@, alias@).is_active,
                !has_stale_route(self.stale_routes@, alias@),
                has_route(self.routes@, alias@),
                route_index(self.routes@, alias@) == ri as int,
                route_at(self.routes@, alias@).alias_ref == alias_at(self.aliases@, alias@).id,
                gsplits == self.routes@[ri as int].splits@,
                n == gsplits.len(),
                i <= n,
                settle_splits(gsplits, amount, provided@) == (match settle_splits(
                    gsplits.skip(i as int),
                    amount,
                    provided@,
                ) {
                    Ok(rest) => Ok::<Seq<TransferInstruction>, UnikError>(out@ + rest),
                    Err(e) => Err::<Seq<TransferInstruction>, UnikError>(e),
                }),
            decreases n - i,
        {
            proof {
                lemma_settle_splits_skip(gsplits, i as int, amount, provided@);
            }
            let s = self.routes[ri].splits[i];
            if !provided_contains(provided, s.recipient) {
                return Err(UnikError::MissingRecipient);
            }
            let share = match compute_split(amount, s.percentage) {
                Ok(share) => share,
                Err(e) => {
                    return Err(e);
                },
            };
            if share > 0 {
                let ghost old_out = out@;
                out.push(TransferInstruction { to: s.recipient, amount: share });
                proof {
                    let head = TransferInstruction { to: s.recipient, amount: share };
                    match settle_splits(gsplits.skip(i as int + 1), amount, provided@) {
                        Ok(rest) => {
                            assert((old_out + (seq![head] + rest)) =~= (old_out.push(head)
                                + rest));
                        },
                        Err(_) => {},
                    }
                }
            }
            i = i + 1;
        }
        proof {
            assert(gsplits.skip(n as int) =~= Seq::<Split>::empty());
            assert(out@ + Seq::<TransferInstruction>::empty() =~= out@);
            lemma_settle_sum(gsplits, amount, provided@);
            if gsplits.len() > 0 {
                lemma_split_sum_within_total(amount, gsplits);
            }
        }
        Ok(out)
    }

    /// Settles `amount` units of token kind `token` against `alias`. The
    /// caller supplies, per recipient, the sub-account it believes funds
    /// go to; the engine re-derives each recipient's sub-account from
    /// (recipient, token) itself and refuses any claim that differs, so a
    /// wrong address can never redirect funds.
    pub fn execute_token_transfer(
        &self,
        alias: &String,
        token: u64,
        amount: u64,
        provided: &Vec<(u64, SubAccount)>,
    ) -> (r: Result<Vec<TokenTransferInstruction>, UnikError>)
        requires
            self.wf(),
        ensures
            match r {
                Ok(v) => {
                    &&& settle_token_spec(*self, alias@, token, amount, provided@) == Ok::<
                        Seq<TokenTransferInstruction>,
                        UnikError,
                    >(v@)
                    &&& sum_token_instruction_amounts(v@) <= amount
                },
                Err(e) => settle_token_spec(*self, alias@, token, amount, provided@) == Err::<
                    Seq<TokenTransferInstruction>,
                    UnikError,
                >(e),
            },
    {
        if amount < MIN_PAYMENT_AMOUNT {
            return Err(UnikError::AmountTooSmall);
        }
        let a = match self.find_alias(alias) {
            Some(a) => a,
            None => {
                return Err(UnikError::AliasNotFound);
            },
        };
        if !self.aliases[a].is_active {
            return Err(UnikError::AliasInactive);
        }
        if self.find_stale_route(alias).is_some() {
            return Err(UnikError::RouteRecordStale);
        }
        let ri = match self.find_route(alias) {
            Some(ri) => ri,
            None => {
                return Err(UnikError::RouteNotFound);
            },
        };
        if self.routes[ri].alias_ref != self.aliases[a].id {
            return Err(UnikError::RouteMismatch);
        }
        let ghost gsplits = self.routes@[ri as int].splits@;
        let mut out: Vec<TokenTransferInstruction> = Vec::new();
        let n = self.routes[ri].splits.len();
        let mut i: usize = 0;
        proof {
            assert(gsplits.skip(0) =~= gsplits);
        }
        while i < n
            invariant
                self.wf(),
                ri < self.routes@.len(),
                amount >= MIN_PAYMENT_AMOUNT,
                has_alias(self.aliases@, alias@),
                alias_at(self.aliases@, alias@).is_active,
                !has_stale_route(self.stale_routes@, alias@),
                has_route(self.routes@, alias@),
                route_index(self.routes@, alias@) == ri as int,
                route_at(self.routes@, alias@).alias_ref == alias_at(self.aliases@, alias@).id,
                gsplits == self.routes@[ri as int].splits@,
                n == gsplits.len(),
                i <= n,
                settle_token_splits(gsplits, amount, token, provided@) == (match
                    settle_token_splits(gsplits.skip(i as int), amount, token, provided@) {
                    Ok(rest) => Ok::<Seq<TokenTransferInstruction>, UnikError>(out@ + rest),
                    Err(e) => Err::<Seq<TokenTransferInstruction>, UnikError>(e),
                }),
            decreases n - i,
        {
            proof {
                lemma_settle_token_splits_skip(gsplits, i as int, amount, token, provided@);
            }
            let s = self.routes[ri].splits[i];
            let claim = match find_claim_exec(provided, s.recipient) {
                Some(claim) => claim,
                None => {
                    return Err(UnikError::MissingRecipient);
                },
            };
            let derived = derive_sub_account(s.recipient, token);
            if !(claim == derived) {
                return Err(UnikError::AddressMismatch);
            }
            let share = match compute_split(amount, s.percentage) {
                Ok(share) => share,
                Err(e) => {
                    return Err(e);
                },
            };
            if share > 0 {
                let ghost old_out = out@;
                out.push(TokenTransferInstruction { to: derived, amount: share });
                proof {
                    let head = TokenTransferInstruction { to: derived, amount: share };
                    match settle_token_splits(gsplits.skip(i as int + 1), amount, token, provided@) {
                        Ok(rest) => {
                            assert((old_out + (seq![head] + rest)) =~= (old_out.push(head)
                                + rest));
                        },
                        Err(_) => {},
                    }
                }
            }
            i = i + 1;
        }
        proof {
            assert(gsplits.skip(n as int) =~= Seq::<Split>::empty());
            assert(out@ + Seq::<TokenTransferInstruction>::empty() =~= out@);
            lemma_settle_token_sum(gsplits, amount, token, provided@);
            if gsplits.len() > 0 {
                lemma_split_sum_within_total(amount, gsplits);
            }
        }
        Ok(out)
    }
}

/// A deactivated alias blocks settlement with `AliasInactive`, whatever
/// route stands configured under it and whatever targets the caller
/// supplies.
pub proof fn lemma_inactive_alias_blocks_settlement(
    reg: Registry,
    alias: Seq<char>,
    amount: u64,
    provided: Seq<u64>,
)
    requires
        has_alias(reg.aliases@, alias),
        !alias_at(reg.aliases@, alias).is_active,
        amount >= MIN_PAYMENT_AMOUNT,
    ensures
        settle_spec(reg, alias, amount, provided) == Err::<Seq<TransferInstruction>, UnikError>(
            UnikError::AliasInactive,
        ),
{
}

/// A route whose back-reference does not name the current alias record
/// blocks settlement with `RouteMismatch`: stale routing data cannot
/// silently pay out under a record registered later.
pub proof fn lemma_stale_binding_blocks_settlement(
    reg: Registry,
    alias: Seq<char>,
    amount: u64,
    provided: Seq<u64>,
)
    requires
        has_alias(reg.aliases@, alias),
        alias_at(reg.aliases@, alias).is_active,
        amount >= MIN_PAYMENT_AMOUNT,
        !has_stale_route(reg.stale_routes@, alias),
        has_route(reg.routes@, alias),
        route_at(reg.routes@, alias).alias_ref != alias_at(reg.aliases@, alias).id,
    ensures
        settle_spec(reg, alias, amount, provided) == Err::<Seq<TransferInstruction>, UnikError>(
            UnikError::RouteMismatch,
        ),
{
}

/// Every live route's back-reference lies below the id counter, so an
/// alias record created from now on (its id taken from the counter) can
/// never be the record an existing route was configured under: after an
/// alias is deleted and its name re-registered, the surviving route
/// mismatches until the new owner re-sets it.
pub proof fn lemma_route_ref_below_next_id(reg: Registry, alias: Seq<char>)
    requires
        reg.wf(),
        has_route(reg.routes@, alias),
    ensures
        route_at(reg.routes@, alias).alias_ref < reg.next_id,
{
    let i = route_index(reg.routes@, alias);
    assert(0 <= i < reg.routes@.len() && reg.routes@[i].alias@ == alias);
}

} // verus!
