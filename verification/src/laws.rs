//! What holds of the marketplace whatever is asked of it.
//!
//! The statements speak of requests and of runs of requests: a request that is
//! refused leaves the state as it is, one that is accepted changes it as
//! [`crate::model`] says.

use crate::contract::InitPayload;
use crate::error::Error;
use crate::integrity::{
    lemma_add_recipe_inv, lemma_add_review_inv, lemma_add_user_inv, lemma_edit_community_inv,
    lemma_edit_owned_inv, lemma_fund_user_inv, lemma_init_contract_inv, lemma_purchase_inv,
    lemma_push_contains, lemma_without_contains,
};
use crate::model::{
    add_recipe_refusal, add_review_refusal, add_user_refusal, community_edited,
    contract_initialised, edit_community_refusal, edit_owned_refusal, fund_user_refusal, funded,
    init_contract_refusal, new_recipe, owned_edited, purchase_refusal, purchased, recipe_added,
    recipe_edited, review_added, user_added,
};
use crate::recipe::{
    BuyNftPayload, EditCommunityRecipe, EditRecipePayload, RecipePayload, ReviewPayload,
};
use crate::store::StoreView;
use crate::user::{FundUser, UserPayload, UserView};
use vstd::prelude::*;

verus! {

/// A request to the marketplace.
pub enum Request {
    AddUser(UserPayload),
    AddRecipe(RecipePayload),
    EditOwnedRecipe(EditRecipePayload),
    EditCommunityRecipe(EditCommunityRecipe),
    BuyRecipeNft(BuyNftPayload),
    AddReview(ReviewPayload),
    InitContract(InitPayload),
    FundUser(FundUser),
}

/// The error with which the request is refused, if it is refused.
pub open spec fn refusal(s: StoreView, request: Request) -> Option<Error> {
    match request {
        Request::AddUser(payload) => add_user_refusal(s, payload),
        Request::AddRecipe(payload) => add_recipe_refusal(s, payload),
        Request::EditOwnedRecipe(payload) => edit_owned_refusal(s, payload),
        Request::EditCommunityRecipe(payload) => edit_community_refusal(s, payload),
        Request::BuyRecipeNft(payload) => purchase_refusal(s, payload),
        Request::AddReview(payload) => add_review_refusal(s, payload),
        Request::InitContract(payload) => init_contract_refusal(s, payload),
        Request::FundUser(payload) => fund_user_refusal(s, payload),
    }
}

/// The state after the request.
pub open spec fn apply(s: StoreView, request: Request) -> StoreView {
    if refusal(s, request) is Some {
        s
    } else {
        match request {
            Request::AddUser(payload) => user_added(s, payload),
            Request::AddRecipe(payload) => recipe_added(s, payload),
            Request::EditOwnedRecipe(payload) => owned_edited(s, payload),
            Request::EditCommunityRecipe(payload) => community_edited(s, payload),
            Request::BuyRecipeNft(payload) => purchased(s, payload),
            Request::AddReview(payload) => review_added(s, payload),
            Request::InitContract(payload) => contract_initialised(s, payload),
            Request::FundUser(payload) => funded(s, payload),
        }
    }
}

/// The state after the requests, taken in their order.
pub open spec fn run(s: StoreView, requests: Seq<Request>) -> StoreView
    decreases requests.len(),
{
    if requests.len() == 0 {
        s
    } else {
        apply(run(s, requests.drop_last()), requests.last())
    }
}

/// The identity that the request brings into use, if it brings one.
pub open spec fn minted(s: StoreView, request: Request) -> Option<u64> {
    if refusal(s, request) is Some {
        None
    } else {
        match request {
            Request::AddUser(_) => Some(s.next_id),
            Request::AddRecipe(_) => Some(s.next_id),
            _ => None,
        }
    }
}

/// Every request keeps the invariant.
pub proof fn lemma_request_keeps_inv(s: StoreView, request: Request)
    requires
        s.inv(),
    ensures
        apply(s, request).inv(),
{
    if refusal(s, request) is None {
        match request {
            Request::AddUser(payload) => lemma_add_user_inv(s, payload),
            Request::AddRecipe(payload) => lemma_add_recipe_inv(s, payload),
            Request::EditOwnedRecipe(payload) => lemma_edit_owned_inv(s, payload),
            Request::EditCommunityRecipe(payload) => lemma_edit_community_inv(s, payload),
            Request::BuyRecipeNft(payload) => lemma_purchase_inv(s, payload),
            Request::AddReview(payload) => lemma_add_review_inv(s, payload),
            Request::InitContract(payload) => lemma_init_contract_inv(s, payload),
            Request::FundUser(payload) => lemma_fund_user_inv(s, payload),
        }
    }
}

/// The invariant holds after any run of requests on a state in which it held:
/// on the empty marketplace, for one.
pub proof fn lemma_run_keeps_inv(s: StoreView, requests: Seq<Request>)
    requires
        s.inv(),
    ensures
        run(s, requests).inv(),
    decreases requests.len(),
{
    if requests.len() > 0 {
        lemma_run_keeps_inv(s, requests.drop_last());
        lemma_request_keeps_inv(run(s, requests.drop_last()), requests.last());
    }
}

/// No balance is ever negative: a purchase takes the price from a balance that
/// covers it, and nothing else takes from a balance.
pub proof fn lemma_balances_never_negative(s: StoreView, requests: Seq<Request>)
    ensures
        forall|u: u64| #[trigger]
            run(s, requests).users.contains_key(u) ==> run(s, requests).users[u].balance >= 0,
        forall|payload: BuyNftPayload| #[trigger]
            purchase_refusal(s, payload) is None ==> purchased(
                s,
                payload,
            ).users[payload.user_id].balance == s.users[payload.user_id].balance
                - s.recipes[payload.recipe_id].price,
{
}

/// A community recipe never has a price: not when it is created, not after an
/// edit, and not after any run of requests.
pub proof fn lemma_community_recipes_are_free(
    s: StoreView,
    requests: Seq<Request>,
    created: RecipePayload,
    edited: EditRecipePayload,
)
    requires
        s.inv(),
    ensures
        run(s, requests).community_is_free(),
        new_recipe(s.next_id, created).is_community ==> new_recipe(s.next_id, created).price == 0,
        s.recipes.contains_key(edited.recipe_id) ==> (recipe_edited(
            s.recipes[edited.recipe_id],
            edited,
        ).is_community ==> recipe_edited(s.recipes[edited.recipe_id], edited).price == 0),
{
    lemma_run_keeps_inv(s, requests);
}

/// The balance of the user with the identity, or nothing if there is none.
pub open spec fn balance_of(users: Map<u64, UserView>, id: u64) -> nat {
    if users.contains_key(id) {
        users[id].balance as nat
    } else {
        0
    }
}

/// The balances of the users with an identity below `n`, added up.
pub open spec fn balance_below(users: Map<u64, UserView>, n: nat) -> nat
    decreases n,
{
    if n == 0 {
        0
    } else {
        balance_below(users, (n - 1) as nat) + balance_of(users, (n - 1) as u64)
    }
}

/// The balances of all users, added up.
pub open spec fn total_balance(users: Map<u64, UserView>) -> nat {
    balance_below(users, 0x1_0000_0000_0000_0000)
}

/// Storing a user changes the sum by the difference to the balance that stood
/// under the identity.
pub proof fn lemma_balance_below_insert(users: Map<u64, UserView>, id: u64, user: UserView, n: nat)
    requires
        n <= 0x1_0000_0000_0000_0000,
    ensures
        balance_below(users.insert(id, user), n) == balance_below(users, n) + (if id < n {
            user.balance - balance_of(users, id)
        } else {
            0
        }),
    decreases n,
{
    if n > 0 {
        lemma_balance_below_insert(users, id, user, (n - 1) as nat);
    }
}

/// Storing a user changes the sum of all balances by the difference to the
/// balance that stood under the identity.
pub proof fn lemma_total_balance_insert(users: Map<u64, UserView>, id: u64, user: UserView)
    ensures
        total_balance(users.insert(id, user)) == total_balance(users) + user.balance - balance_of(
            users,
            id,
        ),
{
    lemma_balance_below_insert(users, id, user, 0x1_0000_0000_0000_0000);
}

/// A purchase leaves the sum of all balances as it was: what the buyer pays,
/// the seller gets.
pub proof fn lemma_purchase_conserves_balances(s: StoreView, payload: BuyNftPayload)
    requires
        purchase_refusal(s, payload) is None,
    ensures
        total_balance(purchased(s, payload).users) == total_balance(s.users),
{
    let recipe = s.recipes[payload.recipe_id];
    let seller = recipe.user_id;
    let buyer = payload.user_id;
    let t = purchased(s, payload);
    let between = s.users.insert(seller, t.users[seller]);
    assert(t.users =~= between.insert(buyer, t.users[buyer]));
    lemma_total_balance_insert(s.users, seller, t.users[seller]);
    lemma_total_balance_insert(between, buyer, t.users[buyer]);
}

/// The sum of all balances changes by funding alone, and then by the amount
/// that is funded.
pub proof fn lemma_only_funding_changes_balances(s: StoreView, request: Request)
    ensures
        total_balance(apply(s, request).users) == total_balance(s.users) + (match request {
            Request::FundUser(payload) => if refusal(s, request) is None {
                payload.amount as nat
            } else {
                0
            },
            _ => 0,
        }),
{
    if refusal(s, request) is None {
        match request {
            Request::AddUser(payload) => {
                lemma_total_balance_insert(s.users, s.next_id, user_added(
                    s,
                    payload,
                ).users[s.next_id]);
            },
            Request::AddRecipe(payload) => {
                lemma_total_balance_insert(
                    s.users,
                    payload.owner_id,
                    recipe_added(s, payload).users[payload.owner_id],
                );
            },
            Request::BuyRecipeNft(payload) => {
                lemma_purchase_conserves_balances(s, payload);
            },
            Request::FundUser(payload) => {
                lemma_total_balance_insert(s.users, payload.user_id, funded(
                    s,
                    payload,
                ).users[payload.user_id]);
            },
            _ => {},
        }
    }
}

/// After a purchase the recipe is in the buyer's list, it is no longer in the
/// seller's, and it is in nobody else's.
pub proof fn lemma_purchase_gives_one_owner(s: StoreView, payload: BuyNftPayload)
    requires
        s.inv(),
        purchase_refusal(s, payload) is None,
    ensures
        purchased(s, payload).recipes[payload.recipe_id].user_id == payload.user_id,
        purchased(s, payload).users[payload.user_id].recipes.contains(payload.recipe_id),
        !purchased(s, payload).users[s.recipes[payload.recipe_id].user_id].recipes.contains(
            payload.recipe_id,
        ),
        forall|u: u64|
            purchased(s, payload).users.contains_key(u) && #[trigger] purchased(
                s,
                payload,
            ).users[u].recipes.contains(payload.recipe_id) ==> u == payload.user_id,
{
    let t = purchased(s, payload);
    let seller = s.recipes[payload.recipe_id].user_id;
    lemma_purchase_inv(s, payload);
    lemma_push_contains(s.users[payload.user_id].recipes, payload.recipe_id, payload.recipe_id);
    lemma_without_contains(s.users[seller].recipes, payload.recipe_id, payload.recipe_id);
    assert(t.users.contains_key(seller));
}

/// The counter never goes back.
pub proof fn lemma_counter_never_decreases(s: StoreView, requests: Seq<Request>)
    ensures
        run(s, requests).next_id >= s.next_id,
    decreases requests.len(),
{
    if requests.len() > 0 {
        lemma_counter_never_decreases(s, requests.drop_last());
    }
}

/// Of two identities that are brought into use, the later is the greater,
/// whatever is asked in between. So no identity is brought into use twice.
pub proof fn lemma_identities_increase(
    s: StoreView,
    first: Request,
    between: Seq<Request>,
    second: Request,
)
    requires
        minted(s, first) is Some,
        minted(run(apply(s, first), between), second) is Some,
    ensures
        minted(s, first)->0 < minted(run(apply(s, first), between), second)->0,
{
    lemma_counter_never_decreases(apply(s, first), between);
}

/// A community edit changes the description of one recipe and nothing else.
pub proof fn lemma_community_edit_changes_description_alone(
    s: StoreView,
    payload: EditCommunityRecipe,
)
    requires
        edit_community_refusal(s, payload) is None,
    ensures
        ({
            let t = community_edited(s, payload);
            let before = s.recipes[payload.recipe_id];
            let after = t.recipes[payload.recipe_id];
            &&& t.users == s.users
            &&& t.contract == s.contract
            &&& t.next_id == s.next_id
            &&& t.recipes.dom() == s.recipes.dom()
            &&& forall|r: u64|
                s.recipes.contains_key(r) && r != payload.recipe_id ==> #[trigger] t.recipes[r]
                    == s.recipes[r]
            &&& after.description == payload.description@
            &&& after.id == before.id
            &&& after.title == before.title
            &&& after.category == before.category
            &&& after.price == before.price
            &&& after.user_id == before.user_id
            &&& after.is_community == before.is_community
            &&& after.is_for_sale == before.is_for_sale
            &&& after.reviews == before.reviews
        }),
{
    let t = community_edited(s, payload);
    assert(t.recipes.dom() =~= s.recipes.dom());
}

} // verus!
