use recipe_nft_backend::contract::InitPayload;
use recipe_nft_backend::engine::{
    add_recipe, add_user, buy_recipe_nft, fund_user, get_user, init_contract, PURCHASE_MESSAGE,
};
use recipe_nft_backend::error::{Entity, Error};
use recipe_nft_backend::recipe::{BuyNftPayload, RecipePayload};
use recipe_nft_backend::store::Store;
use recipe_nft_backend::user::{FundUser, UserPayload};

fn user(name: &str, password: &str, email: &str) -> UserPayload {
    UserPayload { name: name.to_string(), password: password.to_string(), email: email.to_string() }
}

fn soup(owner_id: u64) -> RecipePayload {
    RecipePayload {
        title: "Soup".to_string(),
        category: "dinner".to_string(),
        description: "boil water".to_string(),
        is_community: false,
        is_for_sale: true,
        price: 50,
        owner_id,
    }
}

/// Alice (0) and Bob (1) are registered, the contract stands, Bob holds 100
/// and Alice offers recipe 2 for 50.
fn market() -> Store {
    let mut store = Store::new();
    assert_eq!(add_user(&mut store, user("alice", "pw1", "a@x")).unwrap().id, 0);
    assert_eq!(add_user(&mut store, user("bob", "pw2", "b@x")).unwrap().id, 1);
    init_contract(&mut store, InitPayload { email: "c@x".to_string(), password: "cpw".to_string() })
        .unwrap();
    let bob =
        fund_user(&mut store, FundUser { user_id: 1, amount: 100, password: "cpw".to_string() })
            .unwrap();
    assert_eq!(bob.balance, 100);
    assert_eq!(add_recipe(&mut store, soup(0)).unwrap().id, 2);
    store
}

#[test]
fn purchase_moves_recipe_and_price() {
    let mut store = market();
    let bought = buy_recipe_nft(
        &mut store,
        BuyNftPayload { recipe_id: 2, user_id: 1, password: "pw2".to_string() },
    );
    assert_eq!(bought, Ok(PURCHASE_MESSAGE.to_string()));
    let alice = get_user(&store, 0).unwrap();
    let bob = get_user(&store, 1).unwrap();
    assert_eq!(alice.balance, 50);
    assert_eq!(bob.balance, 50);
    assert_eq!(store.recipes.get(2).unwrap().user_id, 1);
    assert!(bob.recipes.contains(&2));
    assert!(!alice.recipes.contains(&2));
}

#[test]
fn buying_own_recipe_is_refused() {
    let mut store = market();
    let alice_before = store.users.get(0);
    let bob_before = store.users.get(1);
    let recipe_before = store.recipes.get(2);
    let counter_before = store.ids.peek();
    let bought = buy_recipe_nft(
        &mut store,
        BuyNftPayload { recipe_id: 2, user_id: 0, password: "pw1".to_string() },
    );
    assert!(matches!(bought, Err(Error::InvalidPayload { .. })));
    assert_eq!(store.users.get(0), alice_before);
    assert_eq!(store.users.get(1), bob_before);
    assert_eq!(store.recipes.get(2), recipe_before);
    assert_eq!(store.ids.peek(), counter_before);
}

#[test]
fn recipe_without_owner_is_not_created() {
    let mut store = market();
    let next = store.ids.peek();
    assert_eq!(next, 3);
    assert_eq!(add_recipe(&mut store, soup(77)), Err(Error::NotFound { what: Entity::User }));
    assert_eq!(store.recipes.get(next), None);
    assert_eq!(store.recipes.iterate().len(), 1);
    // The identity was not used up: the next recipe gets it.
    assert_eq!(store.ids.peek(), next);
    assert_eq!(add_recipe(&mut store, soup(1)).unwrap().id, next);
}
