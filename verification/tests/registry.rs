use litentry::error::Error;
use litentry::event::Event;
use litentry::ident::{AccountId, H256};
use litentry::idgen::next_id;
use litentry::record::{AuthorizedToken, Identity};
use litentry::registry::Registry;

fn acct(n: u128) -> AccountId {
    AccountId::new(n, 0xacc)
}

fn id(n: u128) -> H256 {
    H256::new(n, 0x1d)
}

fn seed() -> H256 {
    H256::from_bytes(&[0x5eu8; 32])
}

fn token(n: u128) -> AuthorizedToken {
    AuthorizedToken::new(id(n), 100, 1, 2, 3)
}

fn owned_tokens(r: &Registry, owner: &AccountId) -> Vec<H256> {
    let mut out = Vec::new();
    let mut i = 0;
    while i < r.tokens_count_of_owner(owner) {
        out.push(r.token_by_index_of_owner(owner, i).unwrap());
        i += 1;
    }
    out
}

fn identity_tokens(r: &Registry, identity: &H256) -> Vec<H256> {
    let mut out = Vec::new();
    let mut i = 0;
    while i < r.tokens_count_of_identity(identity) {
        out.push(r.token_by_index_of_identity(identity, i).unwrap());
        i += 1;
    }
    out
}

fn all_tokens(r: &Registry) -> Vec<H256> {
    let mut out = Vec::new();
    let mut i = 0;
    while i < r.tokens_count() {
        out.push(r.token_by_index(i).unwrap());
        i += 1;
    }
    out
}

fn all_identities(r: &Registry) -> Vec<H256> {
    let mut out = Vec::new();
    let mut i = 0;
    while i < r.identities_count() {
        out.push(r.identity_by_index(i).unwrap());
        i += 1;
    }
    out
}

fn owned_identities(r: &Registry, owner: &AccountId) -> Vec<H256> {
    let mut out = Vec::new();
    let mut i = 0;
    while i < r.identities_count_of_owner(owner) {
        out.push(r.identity_by_index_of_owner(owner, i).unwrap());
        i += 1;
    }
    out
}

/// Everything that can be read of a registry about the given accounts and
/// identifiers, to compare two states.
fn snapshot(r: &Registry, accounts: &[AccountId], ids: &[H256]) -> Vec<String> {
    let mut out = Vec::new();
    out.push(format!("nonce {}", r.nonce()));
    out.push(format!("identities {:?}", all_identities(r)));
    out.push(format!("tokens {:?}", all_tokens(r)));
    for a in accounts {
        out.push(format!("owned identities {:?}", owned_identities(r, a)));
        out.push(format!("owned tokens {:?}", owned_tokens(r, a)));
    }
    for i in ids {
        out.push(format!("identity {:?}", r.identity(i)));
        out.push(format!("identity owner {:?}", r.owner_of_identity(i)));
        out.push(format!("identity index {:?}", r.identity_index(i)));
        out.push(format!("identity index of owner {:?}", r.identity_index_of_owner(i)));
        out.push(format!("token {:?}", r.token(i)));
        out.push(format!("token owner {:?}", r.owner_of_token(i)));
        out.push(format!("token identity {:?}", r.identity_of_token(i)));
        out.push(format!("token index {:?}", r.token_index(i)));
        out.push(format!("token index of owner {:?}", r.token_index_of_owner(i)));
        out.push(format!("token index of identity {:?}", r.token_index_of_identity(i)));
        out.push(format!("identity tokens {:?}", identity_tokens(r, i)));
    }
    out
}

#[test]
fn new_registry_is_empty() {
    let r = Registry::new();
    assert_eq!(r.nonce(), 0);
    assert_eq!(r.identities_count(), 0);
    assert_eq!(r.tokens_count(), 0);
    assert_eq!(r.identities_count_of_owner(&acct(1)), 0);
    assert_eq!(r.tokens_count_of_owner(&acct(1)), 0);
    assert_eq!(r.tokens_count_of_identity(&id(1)), 0);
    assert_eq!(r.identity(&id(1)), None);
    assert_eq!(r.owner_of_identity(&id(1)), None);
    assert_eq!(r.token(&id(1)), None);
    assert_eq!(r.owner_of_token(&id(1)), None);
    assert_eq!(r.identity_of_token(&id(1)), None);
    assert_eq!(r.identity_by_index(0), None);
    assert_eq!(r.token_by_index(0), None);
    assert_eq!(r.identity_index(&id(1)), None);
    assert_eq!(r.token_index(&id(1)), None);
    assert_eq!(r.identity_index_of_owner(&id(1)), None);
    assert_eq!(r.token_index_of_owner(&id(1)), None);
    assert_eq!(r.token_index_of_identity(&id(1)), None);
}

#[test]
fn register_identity_generates_the_id_and_advances_the_nonce() {
    let mut r = Registry::new();
    let expected = next_id(&seed(), &acct(1), 0);
    let (got, event) = r.register_identity(acct(1), seed()).unwrap();
    assert_eq!(got, expected);
    assert_eq!(event, Event::IdentityCreated(acct(1), expected));
    assert_eq!(r.nonce(), 1);
    assert_eq!(r.identity(&got), Some(Identity::new(got)));
    assert_eq!(r.owner_of_identity(&got), Some(acct(1)));
    assert_eq!(all_identities(&r), vec![got]);
    assert_eq!(owned_identities(&r, &acct(1)), vec![got]);
    assert_eq!(r.identity_index(&got), Some(0));
    assert_eq!(r.identity_index_of_owner(&got), Some(0));
}

#[test]
fn two_registrations_with_one_seed_give_two_ids() {
    let mut r = Registry::new();
    let (first, _) = r.register_identity(acct(1), seed()).unwrap();
    assert_eq!(r.nonce(), 1);
    let (second, _) = r.register_identity(acct(1), seed()).unwrap();
    assert_eq!(r.nonce(), 2);
    assert_ne!(first, second);
    assert_eq!(first, next_id(&seed(), &acct(1), 0));
    assert_eq!(second, next_id(&seed(), &acct(1), 1));
    assert_eq!(all_identities(&r), vec![first, second]);
    assert_eq!(owned_identities(&r, &acct(1)), vec![first, second]);
}

#[test]
fn register_identity_with_id_echoes_the_id_and_keeps_the_nonce() {
    let mut r = Registry::new();
    let got = r.register_identity_with_id(acct(1), id(7));
    assert_eq!(got, Ok((id(7), Event::IdentityCreated(acct(1), id(7)))));
    assert_eq!(r.nonce(), 0);
    assert_eq!(r.identity(&id(7)), Some(Identity { id: id(7) }));
    assert_eq!(r.owner_of_identity(&id(7)), Some(acct(1)));
    assert_eq!(r.identities_count(), 1);
    assert_eq!(r.identities_count_of_owner(&acct(1)), 1);
}

#[test]
fn double_registration_with_explicit_id_fails_and_changes_nothing() {
    let mut r = Registry::new();
    assert!(r.register_identity_with_id(acct(1), id(7)).is_ok());
    let accounts = [acct(1), acct(2)];
    let ids = [id(7), id(8)];
    let before = snapshot(&r, &accounts, &ids);
    assert_eq!(r.register_identity_with_id(acct(1), id(7)), Err(Error::AlreadyExists));
    assert_eq!(snapshot(&r, &accounts, &ids), before);
    assert_eq!(r.register_identity_with_id(acct(2), id(7)), Err(Error::AlreadyExists));
    assert_eq!(snapshot(&r, &accounts, &ids), before);
    assert_eq!(r.owner_of_identity(&id(7)), Some(acct(1)));
    assert_eq!(r.identities_count(), 1);
    assert_eq!(r.identities_count_of_owner(&acct(2)), 0);
}

#[test]
fn generated_id_that_is_taken_is_rejected() {
    let mut r = Registry::new();
    let would_be = next_id(&seed(), &acct(1), 0);
    assert!(r.register_identity_with_id(acct(2), would_be).is_ok());
    assert_eq!(r.register_identity(acct(1), seed()), Err(Error::AlreadyExists));
    assert_eq!(r.nonce(), 0);
    assert_eq!(r.identities_count(), 1);
    assert_eq!(r.owner_of_identity(&would_be), Some(acct(2)));
}

#[test]
fn commit_identity_mints_and_advances_the_nonce() {
    let mut r = Registry::new();
    assert_eq!(
        r.commit_identity(acct(1), id(3)),
        Ok((id(3), Event::IdentityCreated(acct(1), id(3))))
    );
    assert_eq!(r.nonce(), 1);
    assert_eq!(r.commit_identity(acct(2), id(3)), Err(Error::AlreadyExists));
    assert_eq!(r.nonce(), 1);
    assert_eq!(r.owner_of_identity(&id(3)), Some(acct(1)));
}

#[test]
fn mint_identity_stores_the_record_it_is_given() {
    let mut r = Registry::new();
    let record = Identity::new(id(99));
    assert_eq!(r.mint_identity(acct(1), id(4), record), Ok(Event::IdentityCreated(acct(1), id(4))));
    assert_eq!(r.identity(&id(4)), Some(record));
    assert_eq!(r.mint_identity(acct(1), id(4), record), Err(Error::AlreadyExists));
}

#[test]
fn create_token_for_unknown_identity_fails_and_changes_no_count() {
    let mut r = Registry::new();
    assert!(r.register_identity_with_id(acct(1), id(1)).is_ok());
    let accounts = [acct(1), acct(2)];
    let ids = [id(1), id(2), next_id(&seed(), &acct(1), 0)];
    let before = snapshot(&r, &accounts, &ids);
    let got = r.create_authorized_token(acct(1), seed(), acct(2), id(2), 10, 1, 2, 3);
    assert_eq!(got, Err(Error::UnknownIdentity));
    assert_eq!(snapshot(&r, &accounts, &ids), before);
    assert_eq!(r.tokens_count(), 0);
    assert_eq!(r.tokens_count_of_owner(&acct(2)), 0);
    assert_eq!(r.tokens_count_of_identity(&id(2)), 0);
    assert_eq!(r.nonce(), 0);
    let again = r.issue_token(acct(1), seed(), acct(2), id(2), 10, 1, 2, 3);
    assert_eq!(again, Err(Error::UnknownIdentity));
    assert_eq!(snapshot(&r, &accounts, &ids), before);
    assert_eq!(r.mint_token(acct(2), id(2), id(5), token(5)), Err(Error::UnknownIdentity));
    assert_eq!(snapshot(&r, &accounts, &ids), before);
}

#[test]
fn create_token_binds_it_to_the_identity_and_the_owner() {
    let mut r = Registry::new();
    assert!(r.register_identity_with_id(acct(1), id(1)).is_ok());
    let expected = next_id(&seed(), &acct(3), 0);
    let got = r.create_authorized_token(acct(3), seed(), acct(2), id(1), 10, 11, 12, 13);
    assert_eq!(got, Ok((expected, Event::AuthorizedTokenCreated(acct(2), id(1), expected))));
    assert_eq!(r.nonce(), 1);
    assert_eq!(
        r.token(&expected),
        Some(AuthorizedToken { id: expected, cost: 10, data: 11, datatype: 12, expired: 13 })
    );
    assert_eq!(r.owner_of_token(&expected), Some(acct(2)));
    assert_eq!(r.identity_of_token(&expected), Some(id(1)));
    assert_eq!(all_tokens(&r), vec![expected]);
    assert_eq!(owned_tokens(&r, &acct(2)), vec![expected]);
    assert_eq!(owned_tokens(&r, &acct(3)), Vec::<H256>::new());
    assert_eq!(identity_tokens(&r, &id(1)), vec![expected]);
    assert_eq!(r.token_index(&expected), Some(0));
    assert_eq!(r.token_index_of_owner(&expected), Some(0));
    assert_eq!(r.token_index_of_identity(&expected), Some(0));
}

#[test]
fn issue_token_is_create_authorized_token() {
    let mut a = Registry::new();
    let mut b = Registry::new();
    assert!(a.register_identity_with_id(acct(1), id(1)).is_ok());
    assert!(b.register_identity_with_id(acct(1), id(1)).is_ok());
    let x = a.create_authorized_token(acct(1), seed(), acct(2), id(1), 10, 11, 12, 13);
    let y = b.issue_token(acct(1), seed(), acct(2), id(1), 10, 11, 12, 13);
    assert!(x.is_ok());
    assert_eq!(x, y);
    let accounts = [acct(1), acct(2)];
    let ids = [id(1), x.unwrap().0];
    assert_eq!(snapshot(&a, &accounts, &ids), snapshot(&b, &accounts, &ids));
}

#[test]
fn mint_token_with_a_taken_id_fails() {
    let mut r = Registry::new();
    assert!(r.register_identity_with_id(acct(1), id(1)).is_ok());
    assert_eq!(
        r.mint_token(acct(1), id(1), id(5), token(5)),
        Ok(Event::AuthorizedTokenCreated(acct(1), id(1), id(5)))
    );
    let accounts = [acct(1), acct(2)];
    let ids = [id(1), id(5)];
    let before = snapshot(&r, &accounts, &ids);
    assert_eq!(r.mint_token(acct(2), id(1), id(5), token(5)), Err(Error::AlreadyExists));
    assert_eq!(snapshot(&r, &accounts, &ids), before);
    assert_eq!(r.commit_token(acct(2), id(1), token(5)), Err(Error::AlreadyExists));
    assert_eq!(snapshot(&r, &accounts, &ids), before);
}

#[test]
fn commit_token_mints_and_advances_the_nonce() {
    let mut r = Registry::new();
    assert!(r.register_identity_with_id(acct(1), id(1)).is_ok());
    assert_eq!(
        r.commit_token(acct(2), id(1), token(6)),
        Ok((id(6), Event::AuthorizedTokenCreated(acct(2), id(1), id(6))))
    );
    assert_eq!(r.nonce(), 1);
    assert_eq!(r.token(&id(6)), Some(token(6)));
    assert_eq!(r.commit_token(acct(2), id(9), token(7)), Err(Error::UnknownIdentity));
    assert_eq!(r.nonce(), 1);
}

#[test]
fn transfer_scenario() {
    let mut r = Registry::new();
    let (a, b) = (acct(1), acct(2));
    let i = id(1);
    let (t1, t2) = (id(11), id(12));
    assert!(r.register_identity_with_id(a, i).is_ok());
    assert!(r.mint_token(a, i, t1, token(11)).is_ok());
    assert!(r.mint_token(a, i, t2, token(12)).is_ok());
    assert_eq!(owned_tokens(&r, &a), vec![t1, t2]);
    let global_before = all_tokens(&r);
    let by_identity_before = identity_tokens(&r, &i);

    assert_eq!(r.transfer_token(a, b, t1), Ok(Event::AuthorizedTokenTransferred(a, b, t1)));

    assert_eq!(owned_tokens(&r, &a), vec![t2]);
    assert_eq!(r.token_index_of_owner(&t2), Some(0));
    assert_eq!(owned_tokens(&r, &b), vec![t1]);
    assert_eq!(r.token_index_of_owner(&t1), Some(0));
    assert_eq!(r.owner_of_token(&t1), Some(b));
    assert_eq!(r.owner_of_token(&t2), Some(a));
    assert_eq!(all_tokens(&r), global_before);
    assert_eq!(all_tokens(&r), vec![t1, t2]);
    assert_eq!(identity_tokens(&r, &i), by_identity_before);
    assert_eq!(r.identity_of_token(&t1), Some(i));
    assert_eq!(r.token(&t1), Some(token(11)));
    assert_eq!(r.tokens_count_of_owner(&a), 1);
    assert_eq!(r.tokens_count_of_owner(&b), 1);
    assert_eq!(r.nonce(), 0);
}

#[test]
fn transfer_by_non_owner_fails_and_changes_nothing() {
    let mut r = Registry::new();
    let (a, b, c) = (acct(1), acct(2), acct(3));
    let i = id(1);
    let t1 = id(11);
    assert!(r.register_identity_with_id(a, i).is_ok());
    assert!(r.mint_token(a, i, t1, token(11)).is_ok());
    let accounts = [a, b, c];
    let ids = [i, t1];
    let before = snapshot(&r, &accounts, &ids);
    assert_eq!(r.transfer_token(c, b, t1), Err(Error::NotOwner));
    assert_eq!(snapshot(&r, &accounts, &ids), before);
    assert_eq!(r.transfer_token(c, c, t1), Err(Error::NotOwner));
    assert_eq!(snapshot(&r, &accounts, &ids), before);
    assert_eq!(r.token_transfer_from(b, c, t1), Err(Error::NotOwner));
    assert_eq!(snapshot(&r, &accounts, &ids), before);
    assert_eq!(r.owner_of_token(&t1), Some(a));
}

#[test]
fn transfer_of_unknown_token_fails() {
    let mut r = Registry::new();
    let (a, b) = (acct(1), acct(2));
    assert!(r.register_identity_with_id(a, id(1)).is_ok());
    let accounts = [a, b];
    let ids = [id(1), id(11)];
    let before = snapshot(&r, &accounts, &ids);
    assert_eq!(r.transfer_token(a, b, id(11)), Err(Error::NotFound));
    assert_eq!(r.token_transfer_from(a, b, id(11)), Err(Error::NotFound));
    assert_eq!(r.transfer_token(a, b, id(1)), Err(Error::NotFound));
    assert_eq!(snapshot(&r, &accounts, &ids), before);
}

#[test]
fn transfer_of_the_middle_token_swaps_in_the_last() {
    let mut r = Registry::new();
    let (a, b) = (acct(1), acct(2));
    let i = id(1);
    assert!(r.register_identity_with_id(a, i).is_ok());
    for n in 11..=14 {
        assert!(r.mint_token(a, i, id(n), token(n)).is_ok());
    }
    assert!(r.mint_token(b, i, id(20), token(20)).is_ok());
    assert_eq!(r.transfer_token(a, b, id(12)), Ok(Event::AuthorizedTokenTransferred(a, b, id(12))));
    assert_eq!(owned_tokens(&r, &a), vec![id(11), id(14), id(13)]);
    assert_eq!(owned_tokens(&r, &b), vec![id(20), id(12)]);
    assert_eq!(r.token_index_of_owner(&id(14)), Some(1));
    assert_eq!(r.token_index_of_owner(&id(12)), Some(1));
    assert_eq!(all_tokens(&r), vec![id(11), id(12), id(13), id(14), id(20)]);
    assert_eq!(identity_tokens(&r, &i), vec![id(11), id(12), id(13), id(14), id(20)]);
}

#[test]
fn transfer_of_the_last_token_empties_the_list() {
    let mut r = Registry::new();
    let (a, b) = (acct(1), acct(2));
    assert!(r.register_identity_with_id(a, id(1)).is_ok());
    assert!(r.mint_token(a, id(1), id(11), token(11)).is_ok());
    assert!(r.transfer_token(a, b, id(11)).is_ok());
    assert_eq!(owned_tokens(&r, &a), Vec::<H256>::new());
    assert_eq!(owned_tokens(&r, &b), vec![id(11)]);
    assert_eq!(r.transfer_token(a, b, id(11)), Err(Error::NotOwner));
    assert!(r.transfer_token(b, a, id(11)).is_ok());
    assert_eq!(owned_tokens(&r, &a), vec![id(11)]);
    assert_eq!(owned_tokens(&r, &b), Vec::<H256>::new());
}

#[test]
fn transfer_to_oneself_moves_the_token_to_the_end() {
    let mut r = Registry::new();
    let a = acct(1);
    assert!(r.register_identity_with_id(a, id(1)).is_ok());
    for n in 11..=13 {
        assert!(r.mint_token(a, id(1), id(n), token(n)).is_ok());
    }
    assert_eq!(r.transfer_token(a, a, id(11)), Ok(Event::AuthorizedTokenTransferred(a, a, id(11))));
    assert_eq!(owned_tokens(&r, &a), vec![id(13), id(12), id(11)]);
    assert_eq!(r.tokens_count_of_owner(&a), 3);
    assert_eq!(r.owner_of_token(&id(11)), Some(a));
    assert_eq!(r.token_index_of_owner(&id(11)), Some(2));
}

#[test]
fn caller_need_not_own_the_identity() {
    let mut r = Registry::new();
    assert!(r.register_identity_with_id(acct(1), id(1)).is_ok());
    let got = r.create_authorized_token(acct(9), seed(), acct(8), id(1), 0, 0, 0, 0);
    assert!(got.is_ok());
    assert_eq!(r.owner_of_token(&got.unwrap().0), Some(acct(8)));
}

#[test]
fn identities_of_different_owners() {
    let mut r = Registry::new();
    assert!(r.register_identity_with_id(acct(1), id(1)).is_ok());
    assert!(r.register_identity_with_id(acct(2), id(2)).is_ok());
    assert!(r.register_identity_with_id(acct(1), id(3)).is_ok());
    assert_eq!(all_identities(&r), vec![id(1), id(2), id(3)]);
    assert_eq!(owned_identities(&r, &acct(1)), vec![id(1), id(3)]);
    assert_eq!(owned_identities(&r, &acct(2)), vec![id(2)]);
    assert_eq!(r.identity_index(&id(3)), Some(2));
    assert_eq!(r.identity_index_of_owner(&id(3)), Some(1));
    assert_eq!(r.identity_index_of_owner(&id(2)), Some(0));
    assert_eq!(r.identity_by_index_of_owner(&acct(2), 1), None);
    assert_eq!(r.identity_by_index(3), None);
}

#[test]
fn default_records_are_zero() {
    assert_eq!(Identity::default(), Identity { id: H256::new(0, 0) });
    assert_eq!(
        AuthorizedToken::default(),
        AuthorizedToken { id: H256::new(0, 0), cost: 0, data: 0, datatype: 0, expired: 0 }
    );
}
