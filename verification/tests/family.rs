use litentry::family::ScopedCollections;
use litentry::ident::{AccountId, H256};

fn id(n: u128) -> H256 {
    H256::new(n, 0)
}

fn acct(n: u128) -> AccountId {
    AccountId::new(n, 1)
}

fn members(f: &ScopedCollections<AccountId>, scope: &AccountId) -> Vec<H256> {
    let mut out = Vec::new();
    let mut i = 0;
    while i < f.count_of(scope) {
        out.push(f.get(scope, i).unwrap());
        i += 1;
    }
    out
}

#[test]
fn unused_scope_is_empty() {
    let f: ScopedCollections<AccountId> = ScopedCollections::new();
    assert_eq!(f.count_of(&acct(1)), 0);
    assert!(!f.contains(&acct(1), &id(1)));
    assert_eq!(f.get(&acct(1), 0), None);
    assert_eq!(f.index_of(&acct(1), &id(1)), None);
}

#[test]
fn scopes_are_independent() {
    let mut f: ScopedCollections<AccountId> = ScopedCollections::new();
    assert_eq!(f.insert(acct(1), id(10)), Ok(()));
    assert_eq!(f.insert(acct(1), id(11)), Ok(()));
    assert_eq!(f.insert(acct(2), id(20)), Ok(()));
    assert_eq!(members(&f, &acct(1)), vec![id(10), id(11)]);
    assert_eq!(members(&f, &acct(2)), vec![id(20)]);
    assert!(f.contains(&acct(1), &id(10)));
    assert!(!f.contains(&acct(2), &id(10)));
    assert_eq!(f.index_of(&acct(1), &id(11)), Some(1));
    assert_eq!(f.index_of(&acct(2), &id(11)), None);
    f.remove(acct(1), &id(10));
    assert_eq!(members(&f, &acct(1)), vec![id(11)]);
    assert_eq!(members(&f, &acct(2)), vec![id(20)]);
}

#[test]
fn scope_emptied_and_used_again() {
    let mut f: ScopedCollections<H256> = ScopedCollections::new();
    assert_eq!(f.insert(id(1), id(10)), Ok(()));
    f.remove(id(1), &id(10));
    assert_eq!(f.count_of(&id(1)), 0);
    assert!(!f.contains(&id(1), &id(10)));
    assert_eq!(f.insert(id(1), id(10)), Ok(()));
    assert_eq!(f.get(&id(1), 0), Some(id(10)));
    assert_eq!(f.count_of(&id(1)), 1);
}
