//! The transaction engine: the operations that change the marketplace.
//!
//! Every operation checks all that could make it fail, encodes every record
//! that it is going to write, and only then writes. An operation that returns
//! an error has changed nothing.

use crate::codec::texts_view;
use crate::contract::{Contract, InitPayload, CONTRACT_ID};
use crate::error::{Entity, Error, Rule};
use crate::integrity::{
    lemma_add_recipe_inv, lemma_add_review_inv, lemma_add_user_inv, lemma_edit_community_inv,
    lemma_edit_owned_inv, lemma_fund_user_inv, lemma_init_contract_inv, lemma_purchase_inv,
};
use crate::model::{
    add_recipe_refusal, add_review_refusal, add_user_refusal, authorized, buyer_after,
    community_edited, contract_initialised, edit_community_refusal, edit_owned_refusal,
    fund_user_refusal, funded, init_contract_refusal, link_refusal, linked, new_contract,
    new_recipe, new_user, owned_edited, purchase_refusal, purchased, recipe_added,
    recipe_described, recipe_edited, recipe_reviewed, recipe_sold, review_added, seller_after,
    transfer_refusal, transferred, user_added, user_funded, user_linked, without,
};
use crate::recipe::{
    BuyNftPayload, EditCommunityRecipe, EditRecipePayload, Recipe, RecipePayload, ReviewPayload,
};
use crate::record::encode;
use crate::store::Store;
use crate::user::{FundUser, ReturnUser, User, UserPayload};
use vstd::prelude::*;
use vstd::string::*;

verus! {

/// What a buyer is told after a purchase.
pub const PURCHASE_MESSAGE: &'static str = "Recipe bought successfully, Enjoy !!";

/// Compares a password with the stored one.
pub fn authorize(candidate: &String, stored: &String) -> (ok: bool)
    ensures
        ok == authorized(candidate@, stored@),
{
    *candidate == *stored
}

/// Whether the list holds the identity.
pub fn contains_id(ids: &Vec<u64>, id: u64) -> (found: bool)
    ensures
        found == ids@.contains(id),
{
    let mut i: usize = 0;
    while i < ids.len()
        invariant
            i <= ids.len(),
            forall|j: int| 0 <= j < i ==> ids@[j] != id,
        decreases ids.len() - i,
    {
        if ids[i] == id {
            return true;
        }
        i = i + 1;
    }
    false
}

/// The list without the identity.
pub fn remove_id(ids: &Vec<u64>, id: u64) -> (rest: Vec<u64>)
    ensures
        rest@ == without(ids@, id),
{
    let mut rest: Vec<u64> = Vec::new();
    let mut i: usize = 0;
    assert(ids@.take(0) =~= Seq::<u64>::empty());
    while i < ids.len()
        invariant
            i <= ids.len(),
            rest@ == without(ids@.take(i as int), id),
        decreases ids.len() - i,
    {
        assert(ids@.take(i + 1).drop_last() =~= ids@.take(i as int));
        if ids[i] != id {
            rest.push(ids[i]);
        }
        i = i + 1;
    }
    assert(ids@.take(i as int) =~= ids@);
    rest
}

/// Appends a recipe to the list of a user.
pub fn add_recipe_to_owner(store: &mut Store, user_id: u64, recipe_id: u64) -> (result: Result<
    (),
    Error,
>)
    ensures
        match result {
            Ok(_) => link_refusal(old(store)@, user_id, recipe_id) is None && final(store)@
                == linked(old(store)@, user_id, recipe_id),
            Err(e) => link_refusal(old(store)@, user_id, recipe_id) == Some(e) && *final(store)
                == *old(store),
        },
{
    let user = match store.users.get(user_id) {
        Some(user) => user,
        None => { return Err(Error::NotFound { what: Entity::User }); },
    };
    if contains_id(&user.recipes, recipe_id) {
        return Err(Error::InvalidPayload { rule: Rule::AlreadyOwned });
    }
    let mut recipes = user.recipes;
    recipes.push(recipe_id);
    let new_user = User { recipes, ..user };
    assert(new_user@ == user_linked(old(store)@.users[user_id], recipe_id));
    match store.users.put(&new_user) {
        Ok(_) => Ok(()),
        Err(e) => Err(e),
    }
}

/// Moves a recipe from its owner to a buyer and settles the price between
/// them. Both users are written, or neither.
pub fn transfer_recipe_to_user(store: &mut Store, user_id: u64, recipe: &Recipe) -> (result:
    Result<(), Error>)
    ensures
        match result {
            Ok(_) => transfer_refusal(old(store)@, user_id, recipe@) is None && final(store)@
                == transferred(old(store)@, user_id, recipe@),
            Err(e) => transfer_refusal(old(store)@, user_id, recipe@) == Some(e) && *final(store)
                == *old(store),
        },
{
    let seller = match store.users.get(recipe.user_id) {
        Some(seller) => seller,
        None => { return Err(Error::NotFound { what: Entity::Owner }); },
    };
    let buyer = match store.users.get(user_id) {
        Some(buyer) => buyer,
        None => { return Err(Error::NotFound { what: Entity::User }); },
    };
    if user_id == recipe.user_id {
        return Err(Error::InvalidPayload { rule: Rule::SelfPurchase });
    }
    if buyer.balance < recipe.price {
        return Err(Error::InvalidPayload { rule: Rule::InsufficientBalance });
    }
    if contains_id(&buyer.recipes, recipe.id) {
        return Err(Error::InvalidPayload { rule: Rule::AlreadyOwned });
    }
    let credited = match seller.balance.checked_add(recipe.price) {
        Some(credited) => credited,
        None => { return Err(Error::InvalidPayload { rule: Rule::BalanceOverflow }); },
    };
    let new_seller = User {
        recipes: remove_id(&seller.recipes, recipe.id),
        balance: credited,
        ..seller
    };
    let debited = buyer.balance - recipe.price;
    let mut recipes = buyer.recipes;
    recipes.push(recipe.id);
    let new_buyer = User { recipes, balance: debited, ..buyer };
    assert(new_seller@ == seller_after(old(store)@.users[recipe.user_id], recipe@));
    assert(new_buyer@ == buyer_after(old(store)@.users[user_id], recipe@));
    let seller_bytes = match encode(&new_seller) {
        Ok(bytes) => bytes,
        Err(e) => { return Err(e); },
    };
    let buyer_bytes = match encode(&new_buyer) {
        Ok(bytes) => bytes,
        Err(e) => { return Err(e); },
    };
    let _ = store.users.put_encoded(recipe.user_id, seller_bytes, Ghost(new_seller@));
    let _ = store.users.put_encoded(user_id, buyer_bytes, Ghost(new_buyer@));
    Ok(())
}

/// Sells a recipe to the user who asks for it: the price goes from the buyer
/// to the owner, the recipe from the owner to the buyer.
pub fn buy_recipe_nft(store: &mut Store, payload: BuyNftPayload) -> (result: Result<String, Error>)
    ensures
        match result {
            Ok(message) => purchase_refusal(old(store)@, payload) is None && final(store)@
                == purchased(old(store)@, payload) && message@ == PURCHASE_MESSAGE@,
            Err(e) => purchase_refusal(old(store)@, payload) == Some(e) && *final(store) == *old(
                store,
            ),
        },
        old(store)@.inv() ==> final(store)@.inv(),
{
    proof {
        if store@.inv() && purchase_refusal(store@, payload) is None {
            lemma_purchase_inv(store@, payload);
        }
    }
    let mut recipe = match store.recipes.get(payload.recipe_id) {
        Some(recipe) => recipe,
        None => { return Err(Error::NotFound { what: Entity::Recipe }); },
    };
    if recipe.is_community {
        return Err(Error::InvalidPayload { rule: Rule::CommunityRecipe });
    }
    if !recipe.is_for_sale {
        return Err(Error::InvalidPayload { rule: Rule::NotForSale });
    }
    let buyer = match store.users.get(payload.user_id) {
        Some(buyer) => buyer,
        None => { return Err(Error::NotFound { what: Entity::User }); },
    };
    if !authorize(&payload.password, &buyer.password) {
        return Err(Error::Unauthorized);
    }
    if buyer.balance < recipe.price {
        return Err(Error::InvalidPayload { rule: Rule::InsufficientBalance });
    }
    if buyer.id == recipe.user_id {
        return Err(Error::InvalidPayload { rule: Rule::SelfPurchase });
    }
    if contains_id(&buyer.recipes, recipe.id) {
        return Err(Error::InvalidPayload { rule: Rule::AlreadyOwned });
    }
    let ghost listed = recipe@;
    let seller_id = recipe.user_id;
    recipe.user_id = payload.user_id;
    let ghost sold = recipe@;
    assert(sold == recipe_sold(listed, payload.user_id));
    let recipe_bytes = match encode(&recipe) {
        Ok(bytes) => bytes,
        Err(e) => { return Err(e); },
    };
    recipe.user_id = seller_id;
    assert(recipe@ == listed);
    match transfer_recipe_to_user(store, payload.user_id, &recipe) {
        Ok(_) => {},
        Err(e) => { return Err(e); },
    }
    let _ = store.recipes.put_encoded(payload.recipe_id, recipe_bytes, Ghost(sold));
    Ok(PURCHASE_MESSAGE.to_owned())
}

/// Registers a user, with no balance and no recipes, under the next identity.
pub fn add_user(store: &mut Store, payload: UserPayload) -> (result: Result<ReturnUser, Error>)
    ensures
        match result {
            Ok(user) => add_user_refusal(old(store)@, payload) is None && final(store)@
                == user_added(old(store)@, payload) && user@ == new_user(
                old(store)@.next_id,
                payload,
            ).shown(),
            Err(e) => add_user_refusal(old(store)@, payload) == Some(e) && *final(store) == *old(
                store,
            ),
        },
        old(store)@.inv() ==> final(store)@.inv(),
{
    proof {
        if store@.inv() && add_user_refusal(store@, payload) is None {
            lemma_add_user_inv(store@, payload);
        }
    }
    let id = store.ids.peek();
    if id == u64::MAX {
        return Err(Error::InvalidPayload { rule: Rule::IdentitiesExhausted });
    }
    if store.users.get(id).is_some() {
        return Err(Error::InvalidPayload { rule: Rule::IdentityTaken });
    }
    let user = User {
        id,
        name: payload.name,
        password: payload.password,
        email: payload.email,
        balance: 0,
        recipes: Vec::new(),
    };
    assert(user@ == new_user(id, payload));
    let bytes = match encode(&user) {
        Ok(bytes) => bytes,
        Err(e) => { return Err(e); },
    };
    match store.ids.next_identity() {
        Ok(_) => {},
        Err(e) => { return Err(e); },
    }
    let _ = store.users.put_encoded(id, bytes, Ghost(user@));
    Ok(user.into_shown())
}

/// What the marketplace shows of the user with the identity.
pub fn get_user(store: &Store, id: u64) -> (result: Result<ReturnUser, Error>)
    ensures
        match result {
            Ok(user) => store@.users.contains_key(id) && user@ == store@.users[id].shown(),
            Err(e) => !store@.users.contains_key(id) && e == (Error::NotFound {
                what: Entity::User,
            }),
        },
{
    match store.users.get(id) {
        Some(user) => Ok(user.into_shown()),
        None => Err(Error::NotFound { what: Entity::User }),
    }
}

/// Creates a recipe under the next identity and appends it to the list of the
/// user that the request names as its owner.
pub fn add_recipe(store: &mut Store, payload: RecipePayload) -> (result: Result<Recipe, Error>)
    ensures
        match result {
            Ok(recipe) => add_recipe_refusal(old(store)@, payload) is None && final(store)@
                == recipe_added(old(store)@, payload) && recipe@ == new_recipe(
                old(store)@.next_id,
                payload,
            ),
            Err(e) => add_recipe_refusal(old(store)@, payload) == Some(e) && *final(store)
                == *old(store),
        },
        old(store)@.inv() ==> final(store)@.inv(),
{
    proof {
        if store@.inv() && add_recipe_refusal(store@, payload) is None {
            lemma_add_recipe_inv(store@, payload);
        }
    }
    let id = store.ids.peek();
    if id == u64::MAX {
        return Err(Error::InvalidPayload { rule: Rule::IdentitiesExhausted });
    }
    if store.recipes.get(id).is_some() {
        return Err(Error::InvalidPayload { rule: Rule::IdentityTaken });
    }
    let price = if payload.is_community {
        0
    } else {
        payload.price
    };
    let recipe = Recipe {
        id,
        title: payload.title,
        category: payload.category,
        description: payload.description,
        price,
        user_id: payload.owner_id,
        is_community: payload.is_community,
        is_for_sale: payload.is_for_sale,
        reviews: Vec::new(),
    };
    assert(texts_view(recipe.reviews) =~= Seq::<Seq<char>>::empty());
    assert(recipe@ == new_recipe(id, payload));
    let bytes = match encode(&recipe) {
        Ok(bytes) => bytes,
        Err(e) => { return Err(e); },
    };
    match add_recipe_to_owner(store, recipe.user_id, id) {
        Ok(_) => {},
        Err(e) => { return Err(e); },
    }
    match store.ids.next_identity() {
        Ok(_) => {},
        Err(e) => { return Err(e); },
    }
    let _ = store.recipes.put_encoded(id, bytes, Ghost(recipe@));
    Ok(recipe)
}

/// The owner's edit of a recipe that is not a community recipe: title,
/// description, flags and price are replaced; category, owner and reviews
/// stay.
pub fn edit_owned_recipe(store: &mut Store, payload: EditRecipePayload) -> (result: Result<
    Recipe,
    Error,
>)
    ensures
        match result {
            Ok(recipe) => edit_owned_refusal(old(store)@, payload) is None && final(store)@
                == owned_edited(old(store)@, payload) && recipe@ == recipe_edited(
                old(store)@.recipes[payload.recipe_id],
                payload,
            ),
            Err(e) => edit_owned_refusal(old(store)@, payload) == Some(e) && *final(store)
                == *old(store),
        },
        old(store)@.inv() ==> final(store)@.inv(),
{
    proof {
        if store@.inv() && edit_owned_refusal(store@, payload) is None {
            lemma_edit_owned_inv(store@, payload);
        }
    }
    let recipe = match store.recipes.get(payload.recipe_id) {
        Some(recipe) => recipe,
        None => { return Err(Error::NotFound { what: Entity::Recipe }); },
    };
    if recipe.is_community {
        return Err(Error::InvalidPayload { rule: Rule::CommunityRecipe });
    }
    let owner = match store.users.get(recipe.user_id) {
        Some(owner) => owner,
        None => { return Err(Error::NotFound { what: Entity::Owner }); },
    };
    if !authorize(&payload.password, &owner.password) {
        return Err(Error::Unauthorized);
    }
    let price = if payload.is_community {
        0
    } else {
        payload.price
    };
    let edited = Recipe {
        title: payload.title,
        description: payload.description,
        is_community: payload.is_community,
        is_for_sale: payload.is_for_sale,
        price,
        ..recipe
    };
    assert(edited@ == recipe_edited(old(store)@.recipes[payload.recipe_id], payload));
    match store.recipes.put(&edited) {
        Ok(_) => Ok(edited),
        Err(e) => Err(e),
    }
}

/// Anyone's edit of a community recipe: the description is replaced and
/// nothing else.
pub fn edit_community_recipe(store: &mut Store, payload: EditCommunityRecipe) -> (result: Result<
    Recipe,
    Error,
>)
    ensures
        match result {
            Ok(recipe) => edit_community_refusal(old(store)@, payload) is None && final(store)@
                == community_edited(old(store)@, payload) && recipe@ == recipe_described(
                old(store)@.recipes[payload.recipe_id],
                payload.description@,
            ),
            Err(e) => edit_community_refusal(old(store)@, payload) == Some(e) && *final(store)
                == *old(store),
        },
        old(store)@.inv() ==> final(store)@.inv(),
{
    proof {
        if store@.inv() && edit_community_refusal(store@, payload) is None {
            lemma_edit_community_inv(store@, payload);
        }
    }
    let recipe = match store.recipes.get(payload.recipe_id) {
        Some(recipe) => recipe,
        None => { return Err(Error::NotFound { what: Entity::Recipe }); },
    };
    if !recipe.is_community {
        return Err(Error::Unauthorized);
    }
    let edited = Recipe { description: payload.description, ..recipe };
    assert(edited@ == recipe_described(
        old(store)@.recipes[payload.recipe_id],
        payload.description@,
    ));
    match store.recipes.put(&edited) {
        Ok(_) => Ok(edited),
        Err(e) => Err(e),
    }
}

/// Appends a review to a recipe. Anyone may review.
pub fn add_review(store: &mut Store, payload: ReviewPayload) -> (result: Result<Recipe, Error>)
    ensures
        match result {
            Ok(recipe) => add_review_refusal(old(store)@, payload) is None && final(store)@
                == review_added(old(store)@, payload) && recipe@ == recipe_reviewed(
                old(store)@.recipes[payload.recipe_id],
                payload.review@,
            ),
            Err(e) => add_review_refusal(old(store)@, payload) == Some(e) && *final(store)
                == *old(store),
        },
        old(store)@.inv() ==> final(store)@.inv(),
{
    proof {
        if store@.inv() && add_review_refusal(store@, payload) is None {
            lemma_add_review_inv(store@, payload);
        }
    }
    let recipe = match store.recipes.get(payload.recipe_id) {
        Some(recipe) => recipe,
        None => { return Err(Error::NotFound { what: Entity::Recipe }); },
    };
    let ghost before = texts_view(recipe.reviews);
    let mut reviews = recipe.reviews;
    reviews.push(payload.review);
    assert(texts_view(reviews) =~= before.push(payload.review@));
    let reviewed = Recipe { reviews, ..recipe };
    assert(reviewed@ == recipe_reviewed(old(store)@.recipes[payload.recipe_id], payload.review@));
    match store.recipes.put(&reviewed) {
        Ok(_) => Ok(reviewed),
        Err(e) => Err(e),
    }
}

/// The reviews of the recipe with the identity, oldest first.
pub fn get_recipe_reviews(store: &Store, id: u64) -> (result: Result<Vec<String>, Error>)
    ensures
        match result {
            Ok(reviews) => store@.recipes.contains_key(id) && texts_view(reviews)
                == store@.recipes[id].reviews,
            Err(e) => !store@.recipes.contains_key(id) && e == (Error::NotFound {
                what: Entity::Recipe,
            }),
        },
{
    match store.recipes.get(id) {
        Some(recipe) => Ok(recipe.reviews),
        None => Err(Error::NotFound { what: Entity::Recipe }),
    }
}

/// Creates the contract. It can be created once.
pub fn init_contract(store: &mut Store, payload: InitPayload) -> (result: Result<Contract, Error>)
    ensures
        match result {
            Ok(contract) => init_contract_refusal(old(store)@, payload) is None && final(store)@
                == contract_initialised(old(store)@, payload) && contract@ == new_contract(
                payload,
            ),
            Err(e) => init_contract_refusal(old(store)@, payload) == Some(e) && *final(store)
                == *old(store),
        },
        old(store)@.inv() ==> final(store)@.inv(),
{
    proof {
        if store@.inv() && init_contract_refusal(store@, payload) is None {
            lemma_init_contract_inv(store@, payload);
        }
    }
    if store.contract.get(CONTRACT_ID).is_some() {
        return Err(Error::AlreadyInit);
    }
    let contract = Contract { id: CONTRACT_ID, email: payload.email, password: payload.password };
    assert(contract@ == new_contract(payload));
    match store.contract.put(&contract) {
        Ok(_) => Ok(contract),
        Err(e) => Err(e),
    }
}

/// Credits the balance of a user. The password is the contract's.
pub fn fund_user(store: &mut Store, payload: FundUser) -> (result: Result<ReturnUser, Error>)
    ensures
        match result {
            Ok(user) => fund_user_refusal(old(store)@, payload) is None && final(store)@
                == funded(old(store)@, payload) && user@ == user_funded(
                old(store)@.users[payload.user_id],
                payload.amount,
            ).shown(),
            Err(e) => fund_user_refusal(old(store)@, payload) == Some(e) && *final(store) == *old(
                store,
            ),
        },
        old(store)@.inv() ==> final(store)@.inv(),
{
    proof {
        if store@.inv() && fund_user_refusal(store@, payload) is None {
            lemma_fund_user_inv(store@, payload);
        }
    }
    let contract = match store.contract.get(CONTRACT_ID) {
        Some(contract) => contract,
        None => { return Err(Error::NotFound { what: Entity::Contract }); },
    };
    if !authorize(&payload.password, &contract.password) {
        return Err(Error::Unauthorized);
    }
    let user = match store.users.get(payload.user_id) {
        Some(user) => user,
        None => { return Err(Error::NotFound { what: Entity::User }); },
    };
    let balance = match user.balance.checked_add(payload.amount) {
        Some(balance) => balance,
        None => { return Err(Error::InvalidPayload { rule: Rule::BalanceOverflow }); },
    };
    let funded_user = User { balance, ..user };
    assert(funded_user@ == user_funded(old(store)@.users[payload.user_id], payload.amount));
    match store.users.put(&funded_user) {
        Ok(_) => Ok(funded_user.into_shown()),
        Err(e) => Err(e),
    }
}

} // verus!
