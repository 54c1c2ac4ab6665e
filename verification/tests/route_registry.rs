use unik::errors::UnikError;
use unik::records::Split;
use unik::registry::Registry;

fn s(x: &str) -> String {
    x.to_string()
}

fn sp(recipient: u64, percentage: u16) -> Split {
    Split {
        recipient,
        percentage,
    }
}

fn with_alias(owner: u64) -> Registry {
    let mut reg = Registry::new();
    reg.register_alias(&s("abc"), &s(""), owner, 0).unwrap();
    reg
}

#[test]
fn set_route_owner_only() {
    let mut reg = with_alias(1);
    assert_eq!(
        reg.set_route_config(&s("abc"), 2, vec![sp(100, 10000)]),
        Err(UnikError::Unauthorized)
    );
    assert_eq!(reg.routes.len(), 0);
}

#[test]
fn set_route_missing_alias_fails() {
    let mut reg = Registry::new();
    assert_eq!(
        reg.set_route_config(&s("abc"), 1, vec![sp(100, 10000)]),
        Err(UnikError::AliasNotFound)
    );
}

#[test]
fn set_route_partial_total_fails() {
    let mut reg = with_alias(1);
    // sums to 9999, not 10000: partial totals are rejected
    assert_eq!(
        reg.set_route_config(&s("abc"), 1, vec![sp(100, 6000), sp(200, 3999)]),
        Err(UnikError::InvalidSplitTotal)
    );
}

#[test]
fn set_route_excess_total_fails() {
    let mut reg = with_alias(1);
    assert_eq!(
        reg.set_route_config(&s("abc"), 1, vec![sp(100, 6000), sp(200, 4001)]),
        Err(UnikError::InvalidSplitTotal)
    );
}

#[test]
fn set_route_empty_list_fails_total() {
    let mut reg = with_alias(1);
    assert_eq!(
        reg.set_route_config(&s("abc"), 1, vec![]),
        Err(UnikError::InvalidSplitTotal)
    );
}

#[test]
fn set_route_duplicate_recipient_fails_despite_correct_total() {
    let mut reg = with_alias(1);
    assert_eq!(
        reg.set_route_config(&s("abc"), 1, vec![sp(100, 6000), sp(200, 4000), sp(100, 0)]),
        Err(UnikError::DuplicateRecipient)
    );
}

#[test]
fn set_route_six_splits_fails() {
    let mut reg = with_alias(1);
    let splits = vec![
        sp(101, 2000),
        sp(102, 2000),
        sp(103, 2000),
        sp(104, 2000),
        sp(105, 1000),
        sp(106, 1000),
    ];
    assert_eq!(
        reg.set_route_config(&s("abc"), 1, splits),
        Err(UnikError::TooManySplits)
    );
}

#[test]
fn set_route_five_splits_succeeds() {
    let mut reg = with_alias(1);
    let splits = vec![
        sp(101, 2000),
        sp(102, 2000),
        sp(103, 2000),
        sp(104, 2000),
        sp(105, 2000),
    ];
    assert_eq!(reg.set_route_config(&s("abc"), 1, splits), Ok(()));
    assert_eq!(reg.routes.len(), 1);
    assert_eq!(reg.routes[0].splits.len(), 5);
    assert_eq!(reg.routes[0].alias_ref, reg.aliases[0].id);
}

#[test]
fn set_route_self_reference_fails() {
    let mut reg = with_alias(1);
    let alias_id = reg.aliases[0].id;
    assert_eq!(
        reg.set_route_config(&s("abc"), 1, vec![sp(alias_id, 10000)]),
        Err(UnikError::SelfReference)
    );
}

#[test]
fn set_route_self_reference_route_id_fails() {
    let mut reg = with_alias(1);
    // the identity the new route record would take is the counter value
    let prospective = reg.next_id;
    assert_eq!(
        reg.set_route_config(&s("abc"), 1, vec![sp(prospective, 10000)]),
        Err(UnikError::SelfReference)
    );
}

#[test]
fn set_route_overwrites_atomically() {
    let mut reg = with_alias(1);
    reg.set_route_config(&s("abc"), 1, vec![sp(100, 10000)])
        .unwrap();
    reg.set_route_config(&s("abc"), 1, vec![sp(200, 7000), sp(300, 3000)])
        .unwrap();
    assert_eq!(reg.routes.len(), 1);
    assert_eq!(reg.routes[0].splits.len(), 2);
    assert_eq!(reg.routes[0].splits[0].recipient, 200);
    assert_eq!(reg.routes[0].splits[1].recipient, 300);
}

#[test]
fn init_route_creates_empty_route() {
    let mut reg = with_alias(1);
    assert_eq!(reg.init_route(&s("abc"), 2), Err(UnikError::Unauthorized));
    assert_eq!(reg.init_route(&s("abc"), 1), Ok(()));
    assert_eq!(reg.routes.len(), 1);
    assert_eq!(reg.routes[0].splits.len(), 0);
    assert_eq!(reg.routes[0].alias_ref, reg.aliases[0].id);
    assert_eq!(reg.init_route(&s("abc"), 1), Err(UnikError::AlreadyExists));
}

#[test]
fn delete_route_owner_only_and_must_exist() {
    let mut reg = with_alias(1);
    assert_eq!(reg.delete_route(&s("abc"), 1), Err(UnikError::RouteNotFound));
    reg.set_route_config(&s("abc"), 1, vec![sp(100, 10000)])
        .unwrap();
    assert_eq!(reg.delete_route(&s("abc"), 2), Err(UnikError::Unauthorized));
    assert_eq!(reg.delete_route(&s("abc"), 1), Ok(()));
    assert_eq!(reg.routes.len(), 0);
}

#[test]
fn route_survives_alias_deletion_without_cascade() {
    let mut reg = with_alias(1);
    reg.set_route_config(&s("abc"), 1, vec![sp(100, 10000)])
        .unwrap();
    reg.delete_alias(&s("abc"), 1).unwrap();
    // the route record dangles; nothing cleans it up automatically
    assert_eq!(reg.routes.len(), 1);
}
