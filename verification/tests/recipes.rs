use recipe_nft_backend::engine::{
    add_recipe, add_review, add_user, edit_community_recipe, edit_owned_recipe,
    get_recipe_reviews,
};
use recipe_nft_backend::error::{Entity, Error, Rule};
use recipe_nft_backend::recipe::{
    EditCommunityRecipe, EditRecipePayload, Recipe, RecipePayload, ReviewPayload,
};
use recipe_nft_backend::store::Store;
use recipe_nft_backend::user::UserPayload;

fn recipe(owner_id: u64, is_community: bool, price: u32) -> RecipePayload {
    RecipePayload {
        title: "Soup".to_string(),
        category: "dinner".to_string(),
        description: "boil water".to_string(),
        is_community,
        is_for_sale: true,
        price,
        owner_id,
    }
}

fn edit(recipe_id: u64, password: &str) -> EditRecipePayload {
    EditRecipePayload {
        recipe_id,
        title: "Stew".to_string(),
        description: "simmer long".to_string(),
        is_community: false,
        is_for_sale: false,
        price: 80,
        password: password.to_string(),
    }
}

fn review(recipe_id: u64, text: &str) -> ReviewPayload {
    ReviewPayload { recipe_id, review: text.to_string() }
}

/// Alice is user 0 and Bob user 1.
fn kitchen() -> Store {
    let mut store = Store::new();
    for (name, password) in [("alice", "pw1"), ("bob", "pw2")] {
        add_user(
            &mut store,
            UserPayload {
                name: name.to_string(),
                password: password.to_string(),
                email: format!("{}@x", name),
            },
        )
        .unwrap();
    }
    store
}

fn unchanged_by(store: &mut Store, act: fn(&mut Store) -> Result<Recipe, Error>, expected: Error) {
    let before = (store.users.iterate(), store.recipes.iterate(), store.ids.peek());
    assert_eq!(act(store), Err(expected));
    assert_eq!((store.users.iterate(), store.recipes.iterate(), store.ids.peek()), before);
}

#[test]
fn recipe_is_created_and_linked() {
    let mut store = kitchen();
    let created = add_recipe(&mut store, recipe(1, false, 50)).unwrap();
    assert_eq!(
        created,
        Recipe {
            id: 2,
            title: "Soup".to_string(),
            category: "dinner".to_string(),
            description: "boil water".to_string(),
            price: 50,
            user_id: 1,
            is_community: false,
            is_for_sale: true,
            reviews: vec![],
        }
    );
    assert_eq!(store.recipes.get(2), Some(created));
    assert_eq!(store.users.get(1).unwrap().recipes, vec![2]);
    assert_eq!(store.users.get(0).unwrap().recipes, Vec::<u64>::new());
    assert_eq!(add_recipe(&mut store, recipe(1, false, 7)).unwrap().id, 3);
    assert_eq!(store.users.get(1).unwrap().recipes, vec![2, 3]);
}

#[test]
fn community_recipe_is_created_without_price() {
    let mut store = kitchen();
    let created = add_recipe(&mut store, recipe(0, true, 50)).unwrap();
    assert!(created.is_community);
    assert_eq!(created.price, 0);
    assert_eq!(store.recipes.get(2).unwrap().price, 0);
}

#[test]
fn recipe_too_long_to_store_is_refused() {
    let mut store = kitchen();
    // 58 bytes of framing, numbers and flags, 4 of title and 6 of category.
    let longest = 1024 - 58 - 4 - 6;
    let mut payload = recipe(0, false, 1);
    payload.description = "d".repeat(longest + 1);
    assert_eq!(add_recipe(&mut store, payload.clone()), Err(Error::EncodingOverflow));
    assert_eq!(store.ids.peek(), 2);
    assert_eq!(store.users.get(0).unwrap().recipes, Vec::<u64>::new());
    payload.description = "d".repeat(longest);
    assert_eq!(add_recipe(&mut store, payload).unwrap().id, 2);
}

#[test]
fn recipe_is_not_created_when_the_owner_record_is_full() {
    let mut store = kitchen();
    let mut owner = store.users.get(0).unwrap();
    // 36 bytes of framing and numbers, 5 of name and 3 of password: the
    // email leaves room for no recipe.
    owner.email = "e".repeat(1024 - 36 - 5 - 3 - 7);
    store.users.put(&owner).unwrap();
    assert_eq!(add_recipe(&mut store, recipe(0, false, 1)), Err(Error::EncodingOverflow));
    assert_eq!(store.recipes.get(2), None);
    assert_eq!(store.ids.peek(), 2);
    assert_eq!(store.users.get(0), Some(owner));
}

#[test]
fn owner_edits_a_recipe() {
    let mut store = kitchen();
    add_recipe(&mut store, recipe(0, false, 50)).unwrap();
    add_review(&mut store, review(2, "fine")).unwrap();
    let edited = edit_owned_recipe(&mut store, edit(2, "pw1")).unwrap();
    assert_eq!(
        edited,
        Recipe {
            id: 2,
            title: "Stew".to_string(),
            category: "dinner".to_string(),
            description: "simmer long".to_string(),
            price: 80,
            user_id: 0,
            is_community: false,
            is_for_sale: false,
            reviews: vec!["fine".to_string()],
        }
    );
    assert_eq!(store.recipes.get(2), Some(edited));
    assert_eq!(store.users.get(0).unwrap().recipes, vec![2]);
}

#[test]
fn owner_turns_a_recipe_into_a_community_recipe() {
    let mut store = kitchen();
    add_recipe(&mut store, recipe(0, false, 50)).unwrap();
    let mut payload = edit(2, "pw1");
    payload.is_community = true;
    let edited = edit_owned_recipe(&mut store, payload).unwrap();
    assert!(edited.is_community);
    assert_eq!(edited.price, 0);
    assert_eq!(store.recipes.get(2).unwrap().price, 0);
    // From now on the owner's edit is closed.
    assert_eq!(
        edit_owned_recipe(&mut store, edit(2, "pw1")),
        Err(Error::InvalidPayload { rule: Rule::CommunityRecipe })
    );
}

#[test]
fn owner_edit_is_refused() {
    let mut store = kitchen();
    add_recipe(&mut store, recipe(0, false, 50)).unwrap();
    add_recipe(&mut store, recipe(0, true, 50)).unwrap();
    unchanged_by(
        &mut store,
        |store| edit_owned_recipe(store, edit(9, "pw1")),
        Error::NotFound { what: Entity::Recipe },
    );
    unchanged_by(
        &mut store,
        |store| edit_owned_recipe(store, edit(3, "pw1")),
        Error::InvalidPayload { rule: Rule::CommunityRecipe },
    );
    unchanged_by(&mut store, |store| edit_owned_recipe(store, edit(2, "pw2")), Error::Unauthorized);
    unchanged_by(
        &mut store,
        |store| {
            let mut payload = edit(2, "pw1");
            payload.title = "t".repeat(1024);
            edit_owned_recipe(store, payload)
        },
        Error::EncodingOverflow,
    );
}

#[test]
fn owner_edit_needs_the_owner() {
    let mut store = kitchen();
    let orphan = Recipe {
        id: 7,
        title: "Soup".to_string(),
        category: "dinner".to_string(),
        description: "boil water".to_string(),
        price: 5,
        user_id: 42,
        is_community: false,
        is_for_sale: true,
        reviews: vec![],
    };
    store.recipes.put(&orphan).unwrap();
    assert_eq!(
        edit_owned_recipe(&mut store, edit(7, "pw1")),
        Err(Error::NotFound { what: Entity::Owner })
    );
    assert_eq!(store.recipes.get(7), Some(orphan));
}

#[test]
fn community_edit_changes_the_description_alone() {
    let mut store = kitchen();
    add_recipe(&mut store, recipe(0, true, 50)).unwrap();
    add_review(&mut store, review(2, "fine")).unwrap();
    let before = store.recipes.get(2).unwrap();
    let users_before = store.users.iterate();
    let edited = edit_community_recipe(
        &mut store,
        EditCommunityRecipe { recipe_id: 2, user_id: 1, description: "add salt".to_string() },
    )
    .unwrap();
    assert_eq!(edited, Recipe { description: "add salt".to_string(), ..before });
    assert_eq!(store.recipes.get(2), Some(edited));
    assert_eq!(store.users.iterate(), users_before);
    assert_eq!(store.ids.peek(), 3);
}

#[test]
fn community_edit_is_refused() {
    let mut store = kitchen();
    add_recipe(&mut store, recipe(0, false, 50)).unwrap();
    add_recipe(&mut store, recipe(0, true, 50)).unwrap();
    unchanged_by(
        &mut store,
        |store| {
            edit_community_recipe(
                store,
                EditCommunityRecipe { recipe_id: 9, user_id: 1, description: "x".to_string() },
            )
        },
        Error::NotFound { what: Entity::Recipe },
    );
    unchanged_by(
        &mut store,
        |store| {
            edit_community_recipe(
                store,
                EditCommunityRecipe { recipe_id: 2, user_id: 0, description: "x".to_string() },
            )
        },
        Error::Unauthorized,
    );
    unchanged_by(
        &mut store,
        |store| {
            edit_community_recipe(
                store,
                EditCommunityRecipe { recipe_id: 3, user_id: 1, description: "x".repeat(1024) },
            )
        },
        Error::EncodingOverflow,
    );
}

#[test]
fn reviews_are_appended() {
    let mut store = kitchen();
    add_recipe(&mut store, recipe(0, false, 50)).unwrap();
    assert_eq!(get_recipe_reviews(&store, 2), Ok(vec![]));
    add_review(&mut store, review(2, "fine")).unwrap();
    add_review(&mut store, review(2, "")).unwrap();
    let reviewed = add_review(&mut store, review(2, "too salty")).unwrap();
    let expected = vec!["fine".to_string(), "".to_string(), "too salty".to_string()];
    assert_eq!(reviewed.reviews, expected);
    assert_eq!(reviewed.title, "Soup");
    assert_eq!(get_recipe_reviews(&store, 2), Ok(expected));
}

#[test]
fn review_of_missing_recipe() {
    let mut store = kitchen();
    assert_eq!(
        add_review(&mut store, review(2, "fine")),
        Err(Error::NotFound { what: Entity::Recipe })
    );
    assert_eq!(get_recipe_reviews(&store, 2), Err(Error::NotFound { what: Entity::Recipe }));
}

#[test]
fn review_that_does_not_fit() {
    let mut store = kitchen();
    add_recipe(&mut store, recipe(0, false, 50)).unwrap();
    // 58 bytes and the texts of the recipe, then 4 bytes before the review.
    let room = 1024 - 58 - 4 - 6 - 10 - 4;
    unchanged_by(
        &mut store,
        |store| add_review(store, ReviewPayload { recipe_id: 2, review: "r".repeat(945) }),
        Error::EncodingOverflow,
    );
    assert_eq!(room, 942);
    assert_eq!(
        add_review(&mut store, review(2, &"r".repeat(room + 1))),
        Err(Error::EncodingOverflow)
    );
    assert!(add_review(&mut store, review(2, &"r".repeat(room))).is_ok());
    assert_eq!(add_review(&mut store, review(2, "")), Err(Error::EncodingOverflow));
}
