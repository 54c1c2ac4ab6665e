use unik::errors::UnikError;
use unik::records::{Split, SubAccount};
use unik::registry::Registry;

fn s(x: &str) -> String {
    x.to_string()
}

fn sp(recipient: u64, percentage: u16) -> Split {
    Split {
        recipient,
        percentage,
    }
}

fn fifty_fifty() -> Registry {
    let mut reg = Registry::new();
    reg.register_alias(&s("abc"), &s(""), 1, 0).unwrap();
    reg.set_route_config(&s("abc"), 1, vec![sp(100, 5000), sp(200, 5000)])
        .unwrap();
    reg
}

#[test]
fn even_settlement_pays_exactly_half_each() {
    let reg = fifty_fifty();
    let out = reg
        .execute_transfer(&s("abc"), 10000, &vec![100, 200])
        .unwrap();
    assert_eq!(out.len(), 2);
    assert_eq!(out[0].to, 100);
    assert_eq!(out[0].amount, 5000);
    assert_eq!(out[1].to, 200);
    assert_eq!(out[1].amount, 5000);
}

#[test]
fn odd_settlement_leaves_remainder_with_payer() {
    let reg = fifty_fifty();
    let out = reg
        .execute_transfer(&s("abc"), 10001, &vec![100, 200])
        .unwrap();
    assert_eq!(out.len(), 2);
    assert_eq!(out[0].amount, 5000);
    assert_eq!(out[1].amount, 5000);
    // 1 unit stays unrouted
    assert_eq!(out[0].amount + out[1].amount, 10000);
}

#[test]
fn dust_amount_is_rejected() {
    let reg = fifty_fifty();
    assert_eq!(
        reg.execute_transfer(&s("abc"), 9999, &vec![100, 200]),
        Err(UnikError::AmountTooSmall)
    );
}

#[test]
fn floor_amount_is_accepted() {
    let reg = fifty_fifty();
    assert!(reg.execute_transfer(&s("abc"), 10000, &vec![100, 200]).is_ok());
}

#[test]
fn missing_recipient_aborts_whole_settlement() {
    let reg = fifty_fifty();
    assert_eq!(
        reg.execute_transfer(&s("abc"), 10000, &vec![100]),
        Err(UnikError::MissingRecipient)
    );
}

#[test]
fn settlement_overflow_is_rejected() {
    let reg = fifty_fifty();
    assert_eq!(
        reg.execute_transfer(&s("abc"), u64::MAX, &vec![100, 200]),
        Err(UnikError::Overflow)
    );
}

#[test]
fn unknown_alias_fails() {
    let reg = fifty_fifty();
    assert_eq!(
        reg.execute_transfer(&s("xyz"), 10000, &vec![100, 200]),
        Err(UnikError::AliasNotFound)
    );
}

#[test]
fn missing_route_fails() {
    let mut reg = Registry::new();
    reg.register_alias(&s("abc"), &s(""), 1, 0).unwrap();
    assert_eq!(
        reg.execute_transfer(&s("abc"), 10000, &vec![100]),
        Err(UnikError::RouteNotFound)
    );
}

#[test]
fn zero_share_split_is_skipped_not_failed() {
    let mut reg = Registry::new();
    reg.register_alias(&s("abc"), &s(""), 1, 0).unwrap();
    reg.set_route_config(&s("abc"), 1, vec![sp(100, 10000), sp(200, 0)])
        .unwrap();
    let out = reg
        .execute_transfer(&s("abc"), 10000, &vec![100, 200])
        .unwrap();
    // recipient 200's share is zero: no instruction for it
    assert_eq!(out.len(), 1);
    assert_eq!(out[0].to, 100);
    assert_eq!(out[0].amount, 10000);
}

#[test]
fn deactivated_alias_blocks_settlement_with_unchanged_route() {
    let mut reg = fifty_fifty();
    reg.deactivate(&s("abc"), 1).unwrap();
    assert_eq!(
        reg.execute_transfer(&s("abc"), 10000, &vec![100, 200]),
        Err(UnikError::AliasInactive)
    );
    // reactivating restores settlement
    reg.reactivate(&s("abc"), 1).unwrap();
    assert!(reg.execute_transfer(&s("abc"), 10000, &vec![100, 200]).is_ok());
}

#[test]
fn stale_route_mismatches_after_reregistration() {
    let mut reg = fifty_fifty();
    reg.delete_alias(&s("abc"), 1).unwrap();
    reg.register_alias(&s("abc"), &s(""), 2, 9).unwrap();
    // the old route survives but no longer names the new record
    assert_ne!(reg.routes[0].alias_ref, reg.aliases[0].id);
    assert_eq!(
        reg.execute_transfer(&s("abc"), 10000, &vec![100, 200]),
        Err(UnikError::RouteMismatch)
    );
    // until the new owner explicitly re-sets the route
    reg.set_route_config(&s("abc"), 2, vec![sp(300, 10000)])
        .unwrap();
    let out = reg.execute_transfer(&s("abc"), 10000, &vec![300]).unwrap();
    assert_eq!(out.len(), 1);
    assert_eq!(out[0].to, 300);
    assert_eq!(out[0].amount, 10000);
}

#[test]
fn token_settlement_pays_derived_sub_accounts() {
    let reg = fifty_fifty();
    let claims = vec![
        (100, SubAccount { owner: 100, token: 77 }),
        (200, SubAccount { owner: 200, token: 77 }),
    ];
    let out = reg
        .execute_token_transfer(&s("abc"), 77, 10000, &claims)
        .unwrap();
    assert_eq!(out.len(), 2);
    assert_eq!(out[0].to, SubAccount { owner: 100, token: 77 });
    assert_eq!(out[0].amount, 5000);
    assert_eq!(out[1].to, SubAccount { owner: 200, token: 77 });
    assert_eq!(out[1].amount, 5000);
}

#[test]
fn token_settlement_refuses_wrong_claimed_address() {
    let reg = fifty_fifty();
    // the claim for recipient 100 points at an attacker's sub-account
    let claims = vec![
        (100, SubAccount { owner: 999, token: 77 }),
        (200, SubAccount { owner: 200, token: 77 }),
    ];
    assert_eq!(
        reg.execute_token_transfer(&s("abc"), 77, 10000, &claims),
        Err(UnikError::AddressMismatch)
    );
}

#[test]
fn token_settlement_refuses_wrong_token_sub_account() {
    let reg = fifty_fifty();
    // right owner, wrong token kind
    let claims = vec![
        (100, SubAccount { owner: 100, token: 78 }),
        (200, SubAccount { owner: 200, token: 77 }),
    ];
    assert_eq!(
        reg.execute_token_transfer(&s("abc"), 77, 10000, &claims),
        Err(UnikError::AddressMismatch)
    );
}

#[test]
fn token_settlement_missing_claim_fails() {
    let reg = fifty_fifty();
    let claims = vec![(100, SubAccount { owner: 100, token: 77 })];
    assert_eq!(
        reg.execute_token_transfer(&s("abc"), 77, 10000, &claims),
        Err(UnikError::MissingRecipient)
    );
}
