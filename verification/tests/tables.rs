use recipe_nft_backend::contract::Contract;
use recipe_nft_backend::error::{Error, Rule};
use recipe_nft_backend::store::Store;
use recipe_nft_backend::user::User;

fn user(id: u64, name: &str) -> User {
    User {
        id,
        name: name.to_string(),
        password: "pw".to_string(),
        email: "e@x".to_string(),
        balance: 1,
        recipes: vec![id],
    }
}

#[test]
fn table_returns_what_was_put() {
    let mut store = Store::new();
    assert_eq!(store.users.get(7), None);
    assert_eq!(store.users.put(&user(7, "alice")), Ok(false));
    assert_eq!(store.users.get(7), Some(user(7, "alice")));
    assert_eq!(store.users.get(8), None);
    assert_eq!(store.users.put(&user(7, "alicia")), Ok(true));
    assert_eq!(store.users.get(7), Some(user(7, "alicia")));
}

#[test]
fn table_refuses_a_record_that_is_too_long() {
    let mut store = Store::new();
    store.users.put(&user(7, "alice")).unwrap();
    assert_eq!(store.users.put(&user(7, &"a".repeat(1024))), Err(Error::EncodingOverflow));
    assert_eq!(store.users.put(&user(8, &"a".repeat(1024))), Err(Error::EncodingOverflow));
    assert_eq!(store.users.get(7), Some(user(7, "alice")));
    assert_eq!(store.users.get(8), None);
}

#[test]
fn table_iterates_by_identity() {
    let mut store = Store::new();
    assert!(store.users.iterate().is_empty());
    for id in [300u64, 5, 70000, 0, u64::MAX, 256] {
        store.users.put(&user(id, "name")).unwrap();
    }
    let listed = store.users.iterate();
    let ids: Vec<u64> = listed.iter().map(|(id, _)| *id).collect();
    assert_eq!(ids, vec![0, 5, 256, 300, 70000, u64::MAX]);
    for (id, found) in listed {
        assert_eq!(found, user(id, "name"));
    }
}

#[test]
fn tables_are_apart() {
    let mut store = Store::new();
    store.users.put(&user(0, "alice")).unwrap();
    assert_eq!(store.recipes.get(0), None);
    assert_eq!(store.contract.get(0), None);
    let contract = Contract { id: 0, email: "c@x".to_string(), password: "cpw".to_string() };
    store.contract.put(&contract).unwrap();
    assert_eq!(store.users.get(0), Some(user(0, "alice")));
    assert_eq!(store.contract.get(0), Some(contract));
    assert_eq!(store.ids.peek(), 0);
}

#[test]
fn allocator_counts_up() {
    let mut store = Store::new();
    assert_eq!(store.ids.peek(), 0);
    assert_eq!(store.ids.next_identity(), Ok(0));
    assert_eq!(store.ids.peek(), 1);
    assert_eq!(store.ids.next_identity(), Ok(1));
    assert_eq!(store.ids.next_identity(), Ok(2));
    assert_eq!(store.ids.peek(), 3);
    let exhausted: Result<u64, Error> =
        Err(Error::InvalidPayload { rule: Rule::IdentitiesExhausted });
    assert_ne!(store.ids.next_identity(), exhausted);
}
