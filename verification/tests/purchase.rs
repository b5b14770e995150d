use recipe_nft_backend::engine::{
    add_recipe_to_owner, buy_recipe_nft, contains_id, remove_id, transfer_recipe_to_user,
    PURCHASE_MESSAGE,
};
use recipe_nft_backend::error::{Entity, Error, Rule};
use recipe_nft_backend::recipe::{BuyNftPayload, Recipe};
use recipe_nft_backend::store::Store;
use recipe_nft_backend::user::User;

fn a_user(id: u64, password: &str, balance: u32, recipes: Vec<u64>) -> User {
    User {
        id,
        name: format!("user{}", id),
        password: password.to_string(),
        email: format!("u{}@x", id),
        balance,
        recipes,
    }
}

fn a_recipe(id: u64, owner: u64, price: u32) -> Recipe {
    Recipe {
        id,
        title: "Soup".to_string(),
        category: "dinner".to_string(),
        description: "boil water".to_string(),
        price,
        user_id: owner,
        is_community: false,
        is_for_sale: true,
        reviews: vec!["fine".to_string()],
    }
}

/// Seller 10 owns recipes 20 and 21 and holds 5; buyer 11 holds 70.
fn shop() -> Store {
    let mut store = Store::new();
    store.users.put(&a_user(10, "sell", 5, vec![20, 21])).unwrap();
    store.users.put(&a_user(11, "buy", 70, vec![])).unwrap();
    store.recipes.put(&a_recipe(20, 10, 30)).unwrap();
    store.recipes.put(&a_recipe(21, 10, 71)).unwrap();
    store
}

fn buy(recipe_id: u64, user_id: u64, password: &str) -> BuyNftPayload {
    BuyNftPayload { recipe_id, user_id, password: password.to_string() }
}

fn snapshot(store: &Store) -> (Vec<(u64, User)>, Vec<(u64, Recipe)>, u64) {
    (store.users.iterate(), store.recipes.iterate(), store.ids.peek())
}

fn refused(store: &mut Store, payload: BuyNftPayload, expected: Error) {
    let before = snapshot(store);
    assert_eq!(buy_recipe_nft(store, payload), Err(expected));
    assert_eq!(snapshot(store), before);
}

#[test]
fn purchase_settles_exactly() {
    let mut store = shop();
    assert_eq!(buy_recipe_nft(&mut store, buy(20, 11, "buy")), Ok(PURCHASE_MESSAGE.to_string()));
    assert_eq!(store.users.get(10), Some(a_user(10, "sell", 35, vec![21])));
    assert_eq!(store.users.get(11), Some(a_user(11, "buy", 40, vec![20])));
    assert_eq!(store.recipes.get(20), Some(a_recipe(20, 11, 30)));
    assert_eq!(store.recipes.get(21), Some(a_recipe(21, 10, 71)));
}

#[test]
fn purchase_keeps_the_sum_of_balances() {
    let mut store = shop();
    let total = |store: &Store| -> u64 {
        store.users.iterate().iter().map(|(_, user)| user.balance as u64).sum()
    };
    let before = total(&store);
    buy_recipe_nft(&mut store, buy(20, 11, "buy")).unwrap();
    assert_eq!(total(&store), before);
}

#[test]
fn purchase_leaves_one_owner() {
    let mut store = shop();
    buy_recipe_nft(&mut store, buy(20, 11, "buy")).unwrap();
    let holders: Vec<u64> = store
        .users
        .iterate()
        .into_iter()
        .filter(|(_, user)| user.recipes.contains(&20))
        .map(|(id, _)| id)
        .collect();
    assert_eq!(holders, vec![11]);
}

#[test]
fn purchase_of_missing_recipe() {
    refused(&mut shop(), buy(99, 11, "buy"), Error::NotFound { what: Entity::Recipe });
}

#[test]
fn purchase_of_community_recipe() {
    let mut store = shop();
    let mut recipe = a_recipe(22, 10, 0);
    recipe.is_community = true;
    store.recipes.put(&recipe).unwrap();
    refused(&mut store, buy(22, 11, "buy"), Error::InvalidPayload { rule: Rule::CommunityRecipe });
}

#[test]
fn purchase_of_recipe_not_for_sale() {
    let mut store = shop();
    let mut recipe = a_recipe(22, 10, 1);
    recipe.is_for_sale = false;
    store.recipes.put(&recipe).unwrap();
    refused(&mut store, buy(22, 11, "buy"), Error::InvalidPayload { rule: Rule::NotForSale });
}

#[test]
fn purchase_by_missing_buyer() {
    refused(&mut shop(), buy(20, 99, "buy"), Error::NotFound { what: Entity::User });
}

#[test]
fn purchase_with_wrong_password() {
    refused(&mut shop(), buy(20, 11, "Buy"), Error::Unauthorized);
    refused(&mut shop(), buy(20, 11, ""), Error::Unauthorized);
    refused(&mut shop(), buy(20, 11, "sell"), Error::Unauthorized);
}

#[test]
fn purchase_beyond_balance() {
    refused(
        &mut shop(),
        buy(21, 11, "buy"),
        Error::InvalidPayload { rule: Rule::InsufficientBalance },
    );
}

#[test]
fn purchase_at_exact_balance() {
    let mut store = shop();
    store.recipes.put(&a_recipe(21, 10, 70)).unwrap();
    buy_recipe_nft(&mut store, buy(21, 11, "buy")).unwrap();
    assert_eq!(store.users.get(11).unwrap().balance, 0);
    assert_eq!(store.users.get(10).unwrap().balance, 75);
}

#[test]
fn purchase_of_own_recipe() {
    let mut store = shop();
    store.users.put(&a_user(10, "sell", 500, vec![20, 21])).unwrap();
    refused(&mut store, buy(20, 10, "sell"), Error::InvalidPayload { rule: Rule::SelfPurchase });
}

#[test]
fn purchase_of_recipe_already_listed() {
    let mut store = shop();
    store.users.put(&a_user(11, "buy", 70, vec![20])).unwrap();
    refused(&mut store, buy(20, 11, "buy"), Error::InvalidPayload { rule: Rule::AlreadyOwned });
}

#[test]
fn purchase_from_missing_owner() {
    let mut store = shop();
    store.recipes.put(&a_recipe(23, 12, 1)).unwrap();
    refused(&mut store, buy(23, 11, "buy"), Error::NotFound { what: Entity::Owner });
}

#[test]
fn purchase_that_overflows_the_seller() {
    let mut store = shop();
    store.users.put(&a_user(10, "sell", u32::MAX - 29, vec![20, 21])).unwrap();
    refused(&mut store, buy(20, 11, "buy"), Error::InvalidPayload { rule: Rule::BalanceOverflow });
    store.users.put(&a_user(10, "sell", u32::MAX - 30, vec![20, 21])).unwrap();
    buy_recipe_nft(&mut store, buy(20, 11, "buy")).unwrap();
    assert_eq!(store.users.get(10).unwrap().balance, u32::MAX);
}

#[test]
fn purchase_that_overflows_the_buyer_record() {
    let mut store = shop();
    // 36 bytes of framing, 3 of name, 3 of password, 8 per recipe: the email
    // fills the record to the last byte, so one more recipe does not fit.
    let mut buyer = a_user(11, "buy", 70, vec![]);
    buyer.name = "bob".to_string();
    buyer.email = "e".repeat(1024 - 36 - 3 - 3);
    store.users.put(&buyer).unwrap();
    refused(&mut store, buy(20, 11, "buy"), Error::EncodingOverflow);
    buyer.email = "e".repeat(1024 - 36 - 3 - 3 - 8);
    store.users.put(&buyer).unwrap();
    buy_recipe_nft(&mut store, buy(20, 11, "buy")).unwrap();
    assert_eq!(store.users.get(11).unwrap().recipes, vec![20]);
}

#[test]
fn transfer_checks_for_itself() {
    let mut store = shop();
    let recipe = a_recipe(20, 10, 30);
    let before = snapshot(&store);
    assert_eq!(
        transfer_recipe_to_user(&mut store, 10, &recipe),
        Err(Error::InvalidPayload { rule: Rule::SelfPurchase })
    );
    assert_eq!(
        transfer_recipe_to_user(&mut store, 99, &recipe),
        Err(Error::NotFound { what: Entity::User })
    );
    assert_eq!(
        transfer_recipe_to_user(&mut store, 11, &a_recipe(20, 98, 30)),
        Err(Error::NotFound { what: Entity::Owner })
    );
    assert_eq!(
        transfer_recipe_to_user(&mut store, 11, &a_recipe(20, 10, 71)),
        Err(Error::InvalidPayload { rule: Rule::InsufficientBalance })
    );
    assert_eq!(snapshot(&store), before);
    assert_eq!(transfer_recipe_to_user(&mut store, 11, &recipe), Ok(()));
    assert_eq!(store.users.get(10), Some(a_user(10, "sell", 35, vec![21])));
    assert_eq!(store.users.get(11), Some(a_user(11, "buy", 40, vec![20])));
    // The recipe itself is the caller's to update.
    assert_eq!(store.recipes.get(20), Some(a_recipe(20, 10, 30)));
    assert_eq!(
        transfer_recipe_to_user(&mut store, 11, &recipe),
        Err(Error::InvalidPayload { rule: Rule::AlreadyOwned })
    );
}

#[test]
fn link_appends_once() {
    let mut store = shop();
    assert_eq!(add_recipe_to_owner(&mut store, 11, 40), Ok(()));
    assert_eq!(add_recipe_to_owner(&mut store, 11, 41), Ok(()));
    assert_eq!(store.users.get(11).unwrap().recipes, vec![40, 41]);
    assert_eq!(
        add_recipe_to_owner(&mut store, 11, 40),
        Err(Error::InvalidPayload { rule: Rule::AlreadyOwned })
    );
    assert_eq!(
        add_recipe_to_owner(&mut store, 99, 40),
        Err(Error::NotFound { what: Entity::User })
    );
    assert_eq!(store.users.get(11).unwrap().recipes, vec![40, 41]);
    assert_eq!(store.users.get(10).unwrap().recipes, vec![20, 21]);
}

#[test]
fn lists_of_identities() {
    assert!(contains_id(&vec![3, 1, 2], 1));
    assert!(!contains_id(&vec![3, 1, 2], 4));
    assert!(!contains_id(&vec![], 0));
    assert_eq!(remove_id(&vec![3, 1, 2], 1), vec![3, 2]);
    assert_eq!(remove_id(&vec![1, 3, 1, 2, 1], 1), vec![3, 2]);
    assert_eq!(remove_id(&vec![3, 1, 2], 4), vec![3, 1, 2]);
    assert_eq!(remove_id(&vec![], 4), Vec::<u64>::new());
}
