//! What each operation of the marketplace does, as functions on the state.
//!
//! For every operation there is a function that gives the error with which it
//! refuses a request, if it refuses it, and one that gives the state after a
//! request that it accepts. The checks are made in the order in which they
//! stand; the first that fails decides.

use crate::contract::{ContractView, InitPayload, CONTRACT_ID};
use crate::error::{Entity, Error, Rule};
use crate::recipe::{
    BuyNftPayload, EditCommunityRecipe, EditRecipePayload, Recipe, RecipePayload, RecipeView,
    ReviewPayload,
};
use crate::record::fits;
use crate::store::StoreView;
use crate::user::{FundUser, User, UserPayload, UserView};
use vstd::prelude::*;

verus! {

/// The password check: the candidate is the stored password, character for
/// character. Nothing is hashed; whoever reads the store reads the passwords.
pub open spec fn authorized(candidate: Seq<char>, stored: Seq<char>) -> bool {
    candidate == stored
}

/// The error for a record that is not there.
pub open spec fn not_found(what: Entity) -> Error {
    Error::NotFound { what }
}

/// The error for a request that breaks a rule.
pub open spec fn invalid(rule: Rule) -> Error {
    Error::InvalidPayload { rule }
}

/// The list without any occurrence of `id`, the rest in its order.
pub open spec fn without(ids: Seq<u64>, id: u64) -> Seq<u64>
    decreases ids.len(),
{
    if ids.len() == 0 {
        ids
    } else if ids.last() == id {
        without(ids.drop_last(), id)
    } else {
        without(ids.drop_last(), id).push(ids.last())
    }
}

// Registering a user

/// The user that a request registers: with no balance and no recipes.
pub open spec fn new_user(id: u64, payload: UserPayload) -> UserView {
    UserView {
        id,
        name: payload.name@,
        password: payload.password@,
        email: payload.email@,
        balance: 0,
        recipes: Seq::empty(),
    }
}

pub open spec fn add_user_refusal(s: StoreView, payload: UserPayload) -> Option<Error> {
    if s.next_id == u64::MAX {
        Some(invalid(Rule::IdentitiesExhausted))
    } else if s.users.contains_key(s.next_id) {
        Some(invalid(Rule::IdentityTaken))
    } else if !fits::<User>(new_user(s.next_id, payload)) {
        Some(Error::EncodingOverflow)
    } else {
        None
    }
}

pub open spec fn user_added(s: StoreView, payload: UserPayload) -> StoreView {
    StoreView {
        users: s.users.insert(s.next_id, new_user(s.next_id, payload)),
        next_id: (s.next_id + 1) as u64,
        ..s
    }
}

// Linking a recipe to its owner

/// The user with one more recipe at the end of the list.
pub open spec fn user_linked(user: UserView, recipe_id: u64) -> UserView {
    UserView { recipes: user.recipes.push(recipe_id), ..user }
}

pub open spec fn link_refusal(s: StoreView, user_id: u64, recipe_id: u64) -> Option<Error> {
    if !s.users.contains_key(user_id) {
        Some(not_found(Entity::User))
    } else if s.users[user_id].recipes.contains(recipe_id) {
        Some(invalid(Rule::AlreadyOwned))
    } else if !fits::<User>(user_linked(s.users[user_id], recipe_id)) {
        Some(Error::EncodingOverflow)
    } else {
        None
    }
}

pub open spec fn linked(s: StoreView, user_id: u64, recipe_id: u64) -> StoreView {
    StoreView { users: s.users.insert(user_id, user_linked(s.users[user_id], recipe_id)), ..s }
}

// Creating a recipe

/// The price that a recipe is stored with: a community recipe has none.
pub open spec fn price_of(is_community: bool, asked: u32) -> u32 {
    if is_community {
        0
    } else {
        asked
    }
}

/// The recipe that a request creates: without reviews.
pub open spec fn new_recipe(id: u64, payload: RecipePayload) -> RecipeView {
    RecipeView {
        id,
        title: payload.title@,
        category: payload.category@,
        description: payload.description@,
        price: price_of(payload.is_community, payload.price),
        user_id: payload.owner_id,
        is_community: payload.is_community,
        is_for_sale: payload.is_for_sale,
        reviews: Seq::empty(),
    }
}

pub open spec fn add_recipe_refusal(s: StoreView, payload: RecipePayload) -> Option<Error> {
    if s.next_id == u64::MAX {
        Some(invalid(Rule::IdentitiesExhausted))
    } else if s.recipes.contains_key(s.next_id) {
        Some(invalid(Rule::IdentityTaken))
    } else if !fits::<Recipe>(new_recipe(s.next_id, payload)) {
        Some(Error::EncodingOverflow)
    } else {
        link_refusal(s, payload.owner_id, s.next_id)
    }
}

pub open spec fn recipe_added(s: StoreView, payload: RecipePayload) -> StoreView {
    StoreView {
        recipes: s.recipes.insert(s.next_id, new_recipe(s.next_id, payload)),
        next_id: (s.next_id + 1) as u64,
        ..linked(s, payload.owner_id, s.next_id)
    }
}

// Editing a recipe

/// The recipe after the owner's edit: category, owner and reviews stay.
pub open spec fn recipe_edited(recipe: RecipeView, payload: EditRecipePayload) -> RecipeView {
    RecipeView {
        title: payload.title@,
        description: payload.description@,
        is_community: payload.is_community,
        is_for_sale: payload.is_for_sale,
        price: price_of(payload.is_community, payload.price),
        ..recipe
    }
}

pub open spec fn edit_owned_refusal(s: StoreView, payload: EditRecipePayload) -> Option<Error> {
    if !s.recipes.contains_key(payload.recipe_id) {
        Some(not_found(Entity::Recipe))
    } else if s.recipes[payload.recipe_id].is_community {
        Some(invalid(Rule::CommunityRecipe))
    } else if !s.users.contains_key(s.recipes[payload.recipe_id].user_id) {
        Some(not_found(Entity::Owner))
    } else if !authorized(
        payload.password@,
        s.users[s.recipes[payload.recipe_id].user_id].password,
    ) {
        Some(Error::Unauthorized)
    } else if !fits::<Recipe>(recipe_edited(s.recipes[payload.recipe_id], payload)) {
        Some(Error::EncodingOverflow)
    } else {
        None
    }
}

pub open spec fn owned_edited(s: StoreView, payload: EditRecipePayload) -> StoreView {
    StoreView {
        recipes: s.recipes.insert(
            payload.recipe_id,
            recipe_edited(s.recipes[payload.recipe_id], payload),
        ),
        ..s
    }
}

/// The recipe with another description.
pub open spec fn recipe_described(recipe: RecipeView, description: Seq<char>) -> RecipeView {
    RecipeView { description, ..recipe }
}

pub open spec fn edit_community_refusal(s: StoreView, payload: EditCommunityRecipe) -> Option<
    Error,
> {
    if !s.recipes.contains_key(payload.recipe_id) {
        Some(not_found(Entity::Recipe))
    } else if !s.recipes[payload.recipe_id].is_community {
        Some(Error::Unauthorized)
    } else if !fits::<Recipe>(
        recipe_described(s.recipes[payload.recipe_id], payload.description@),
    ) {
        Some(Error::EncodingOverflow)
    } else {
        None
    }
}

pub open spec fn community_edited(s: StoreView, payload: EditCommunityRecipe) -> StoreView {
    StoreView {
        recipes: s.recipes.insert(
            payload.recipe_id,
            recipe_described(s.recipes[payload.recipe_id], payload.description@),
        ),
        ..s
    }
}

// Reviewing a recipe

/// The recipe with one more review at the end.
pub open spec fn recipe_reviewed(recipe: RecipeView, review: Seq<char>) -> RecipeView {
    RecipeView { reviews: recipe.reviews.push(review), ..recipe }
}

pub open spec fn add_review_refusal(s: StoreView, payload: ReviewPayload) -> Option<Error> {
    if !s.recipes.contains_key(payload.recipe_id) {
        Some(not_found(Entity::Recipe))
    } else if !fits::<Recipe>(recipe_reviewed(s.recipes[payload.recipe_id], payload.review@)) {
        Some(Error::EncodingOverflow)
    } else {
        None
    }
}

pub open spec fn review_added(s: StoreView, payload: ReviewPayload) -> StoreView {
    StoreView {
        recipes: s.recipes.insert(
            payload.recipe_id,
            recipe_reviewed(s.recipes[payload.recipe_id], payload.review@),
        ),
        ..s
    }
}

// Selling a recipe

/// The seller after the sale: without the recipe, richer by its price.
pub open spec fn seller_after(seller: UserView, recipe: RecipeView) -> UserView {
    UserView {
        recipes: without(seller.recipes, recipe.id),
        balance: (seller.balance + recipe.price) as u32,
        ..seller
    }
}

/// The buyer after the sale: with the recipe, poorer by its price.
pub open spec fn buyer_after(buyer: UserView, recipe: RecipeView) -> UserView {
    UserView {
        recipes: buyer.recipes.push(recipe.id),
        balance: (buyer.balance - recipe.price) as u32,
        ..buyer
    }
}

pub open spec fn transfer_refusal(s: StoreView, buyer_id: u64, recipe: RecipeView) -> Option<
    Error,
> {
    if !s.users.contains_key(recipe.user_id) {
        Some(not_found(Entity::Owner))
    } else if !s.users.contains_key(buyer_id) {
        Some(not_found(Entity::User))
    } else if buyer_id == recipe.user_id {
        Some(invalid(Rule::SelfPurchase))
    } else if s.users[buyer_id].balance < recipe.price {
        Some(invalid(Rule::InsufficientBalance))
    } else if s.users[buyer_id].recipes.contains(recipe.id) {
        Some(invalid(Rule::AlreadyOwned))
    } else if s.users[recipe.user_id].balance + recipe.price > u32::MAX {
        Some(invalid(Rule::BalanceOverflow))
    } else if !fits::<User>(seller_after(s.users[recipe.user_id], recipe)) || !fits::<User>(
        buyer_after(s.users[buyer_id], recipe),
    ) {
        Some(Error::EncodingOverflow)
    } else {
        None
    }
}

pub open spec fn transferred(s: StoreView, buyer_id: u64, recipe: RecipeView) -> StoreView {
    StoreView {
        users: s.users.insert(
            recipe.user_id,
            seller_after(s.users[recipe.user_id], recipe),
        ).insert(buyer_id, buyer_after(s.users[buyer_id], recipe)),
        ..s
    }
}

/// The recipe in the hands of the buyer.
pub open spec fn recipe_sold(recipe: RecipeView, buyer_id: u64) -> RecipeView {
    RecipeView { user_id: buyer_id, ..recipe }
}

pub open spec fn purchase_refusal(s: StoreView, payload: BuyNftPayload) -> Option<Error> {
    if !s.recipes.contains_key(payload.recipe_id) {
        Some(not_found(Entity::Recipe))
    } else if s.recipes[payload.recipe_id].is_community {
        Some(invalid(Rule::CommunityRecipe))
    } else if !s.recipes[payload.recipe_id].is_for_sale {
        Some(invalid(Rule::NotForSale))
    } else if !s.users.contains_key(payload.user_id) {
        Some(not_found(Entity::User))
    } else if !authorized(payload.password@, s.users[payload.user_id].password) {
        Some(Error::Unauthorized)
    } else if s.users[payload.user_id].balance < s.recipes[payload.recipe_id].price {
        Some(invalid(Rule::InsufficientBalance))
    } else if payload.user_id == s.recipes[payload.recipe_id].user_id {
        Some(invalid(Rule::SelfPurchase))
    } else if s.users[payload.user_id].recipes.contains(payload.recipe_id) {
        Some(invalid(Rule::AlreadyOwned))
    } else if !fits::<Recipe>(recipe_sold(s.recipes[payload.recipe_id], payload.user_id)) {
        Some(Error::EncodingOverflow)
    } else {
        transfer_refusal(s, payload.user_id, s.recipes[payload.recipe_id])
    }
}

pub open spec fn purchased(s: StoreView, payload: BuyNftPayload) -> StoreView {
    StoreView {
        recipes: s.recipes.insert(
            payload.recipe_id,
            recipe_sold(s.recipes[payload.recipe_id], payload.user_id),
        ),
        ..transferred(s, payload.user_id, s.recipes[payload.recipe_id])
    }
}

// The contract and the funding that it gates

/// The contract that a request creates.
pub open spec fn new_contract(payload: InitPayload) -> ContractView {
    ContractView { id: CONTRACT_ID, email: payload.email@, password: payload.password@ }
}

pub open spec fn init_contract_refusal(s: StoreView, payload: InitPayload) -> Option<Error> {
    if s.contract is Some {
        Some(Error::AlreadyInit)
    } else if !fits::<crate::contract::Contract>(new_contract(payload)) {
        Some(Error::EncodingOverflow)
    } else {
        None
    }
}

pub open spec fn contract_initialised(s: StoreView, payload: InitPayload) -> StoreView {
    StoreView { contract: Some(new_contract(payload)), ..s }
}

/// The user with the amount added to the balance.
pub open spec fn user_funded(user: UserView, amount: u32) -> UserView {
    UserView { balance: (user.balance + amount) as u32, ..user }
}

pub open spec fn fund_user_refusal(s: StoreView, payload: FundUser) -> Option<Error> {
    if s.contract is None {
        Some(not_found(Entity::Contract))
    } else if !authorized(payload.password@, s.contract->0.password) {
        Some(Error::Unauthorized)
    } else if !s.users.contains_key(payload.user_id) {
        Some(not_found(Entity::User))
    } else if s.users[payload.user_id].balance + payload.amount > u32::MAX {
        Some(invalid(Rule::BalanceOverflow))
    } else if !fits::<User>(user_funded(s.users[payload.user_id], payload.amount)) {
        Some(Error::EncodingOverflow)
    } else {
        None
    }
}

pub open spec fn funded(s: StoreView, payload: FundUser) -> StoreView {
    StoreView {
        users: s.users.insert(
            payload.user_id,
            user_funded(s.users[payload.user_id], payload.amount),
        ),
        ..s
    }
}

} // verus!
