//! What holds of the marketplace at all times, and the proof that every
//! operation keeps it.

use crate::contract::{InitPayload, CONTRACT_ID};
use crate::model::{
    add_recipe_refusal, add_review_refusal, add_user_refusal, community_edited,
    contract_initialised, edit_community_refusal, edit_owned_refusal, fund_user_refusal, funded,
    init_contract_refusal, link_refusal, linked, owned_edited, purchase_refusal, purchased,
    recipe_added, review_added, user_added, without,
};
use crate::recipe::{
    BuyNftPayload, EditCommunityRecipe, EditRecipePayload, RecipePayload, RecipeView,
    ReviewPayload,
};
use crate::store::StoreView;
use crate::user::{FundUser, UserPayload, UserView};
use vstd::prelude::*;

verus! {

impl StoreView {
    /// Every identity in use has been handed out by the counter.
    pub open spec fn identities_are_minted(self) -> bool {
        &&& forall|u: u64| #[trigger] self.users.contains_key(u) ==> u < self.next_id
        &&& forall|r: u64| #[trigger] self.recipes.contains_key(r) ==> r < self.next_id
    }

    /// Every record carries the identity under which it is stored.
    pub open spec fn records_carry_their_identity(self) -> bool {
        &&& forall|u: u64| #[trigger] self.users.contains_key(u) ==> self.users[u].id == u
        &&& forall|r: u64| #[trigger] self.recipes.contains_key(r) ==> self.recipes[r].id == r
        &&& self.contract matches Some(c) ==> c.id == CONTRACT_ID
    }

    /// The owner of every recipe is a user.
    pub open spec fn owners_exist(self) -> bool {
        forall|r: u64| #[trigger]
            self.recipes.contains_key(r) ==> self.users.contains_key(self.recipes[r].user_id)
    }

    /// A user's list names recipes that the user owns, and no others.
    pub open spec fn lists_name_owned_recipes(self) -> bool {
        forall|u: u64, r: u64|
            self.users.contains_key(u) && #[trigger] self.users[u].recipes.contains(r)
                ==> self.recipes.contains_key(r) && self.recipes[r].user_id == u
    }

    /// Every recipe is in the list of its owner.
    pub open spec fn recipes_are_listed(self) -> bool {
        forall|r: u64| #[trigger]
            self.recipes.contains_key(r) ==> self.users[self.recipes[r].user_id].recipes.contains(
                r,
            )
    }

    /// No list names a recipe twice.
    pub open spec fn lists_have_no_duplicates(self) -> bool {
        forall|u: u64| #[trigger]
            self.users.contains_key(u) ==> self.users[u].recipes.no_duplicates()
    }

    /// A community recipe has no price.
    pub open spec fn community_is_free(self) -> bool {
        forall|r: u64| #[trigger]
            self.recipes.contains_key(r) ==> (self.recipes[r].is_community
                ==> self.recipes[r].price == 0)
    }

    /// The invariant of the marketplace.
    pub open spec fn inv(self) -> bool {
        &&& self.identities_are_minted()
        &&& self.records_carry_their_identity()
        &&& self.owners_exist()
        &&& self.lists_name_owned_recipes()
        &&& self.recipes_are_listed()
        &&& self.lists_have_no_duplicates()
        &&& self.community_is_free()
    }
}

/// The invariant holds of the empty marketplace.
pub proof fn lemma_empty_inv()
    ensures
        StoreView::empty().inv(),
{
}

/// A list with one more identity holds what the list held, and that identity.
pub proof fn lemma_push_contains(ids: Seq<u64>, id: u64, x: u64)
    ensures
        ids.push(id).contains(x) <==> (ids.contains(x) || x == id),
{
    let pushed = ids.push(id);
    if ids.contains(x) {
        let i = choose|i: int| 0 <= i < ids.len() && ids[i] == x;
        assert(pushed[i] == x);
    }
    if x == id {
        assert(pushed[ids.len() as int] == x);
    }
    if pushed.contains(x) {
        let i = choose|i: int| 0 <= i < pushed.len() && pushed[i] == x;
        if i < ids.len() {
            assert(ids[i] == x);
        }
    }
}

/// A list without duplicates stays so when an identity is added that it did
/// not hold.
pub proof fn lemma_push_no_duplicates(ids: Seq<u64>, id: u64)
    requires
        ids.no_duplicates(),
        !ids.contains(id),
    ensures
        ids.push(id).no_duplicates(),
{
    let pushed = ids.push(id);
    assert forall|i: int, j: int|
        0 <= i < pushed.len() && 0 <= j < pushed.len() && i != j implies pushed[i]
        != pushed[j] by {
        if i < ids.len() && j < ids.len() {
        } else if i < ids.len() {
            assert(ids[i] != id);
        } else if j < ids.len() {
            assert(ids[j] != id);
        }
    }
}

/// What is left of a list holds what the list held, but for the identity taken
/// out.
pub proof fn lemma_without_contains(ids: Seq<u64>, id: u64, x: u64)
    ensures
        without(ids, id).contains(x) <==> (ids.contains(x) && x != id),
    decreases ids.len(),
{
    if ids.len() > 0 {
        let front = ids.drop_last();
        lemma_without_contains(front, id, x);
        assert(ids =~= front.push(ids.last()));
        lemma_push_contains(front, ids.last(), x);
        if ids.last() != id {
            lemma_push_contains(without(front, id), ids.last(), x);
        }
    }
}

/// A list without duplicates stays so when an identity is taken out.
pub proof fn lemma_without_no_duplicates(ids: Seq<u64>, id: u64)
    requires
        ids.no_duplicates(),
    ensures
        without(ids, id).no_duplicates(),
    decreases ids.len(),
{
    if ids.len() > 0 {
        let front = ids.drop_last();
        lemma_without_no_duplicates(front, id);
        if ids.last() != id {
            lemma_without_contains(front, id, ids.last());
            if front.contains(ids.last()) {
                let i = choose|i: int| 0 <= i < front.len() && front[i] == ids.last();
                assert(ids[i] == ids[ids.len() - 1]);
            }
            lemma_push_no_duplicates(without(front, id), ids.last());
        }
    }
}

/// Replacing a recipe by one with the same identity and owner, and no price if
/// it is a community recipe, keeps the invariant.
pub proof fn lemma_recipe_replaced_inv(s: StoreView, id: u64, recipe: RecipeView)
    requires
        s.inv(),
        s.recipes.contains_key(id),
        recipe.id == id,
        recipe.user_id == s.recipes[id].user_id,
        recipe.is_community ==> recipe.price == 0,
    ensures
        (StoreView { recipes: s.recipes.insert(id, recipe), ..s }).inv(),
{
    let t = StoreView { recipes: s.recipes.insert(id, recipe), ..s };
    assert forall|u: u64, r: u64|
        t.users.contains_key(u) && #[trigger] t.users[u].recipes.contains(
            r,
        ) implies t.recipes.contains_key(r) && t.recipes[r].user_id == u by {
        assert(s.users[u].recipes.contains(r));
    }
    assert forall|r: u64| #[trigger]
        t.recipes.contains_key(r) implies t.users[t.recipes[r].user_id].recipes.contains(r) by {
        assert(s.recipes.contains_key(r));
    }
}

/// Replacing a user by one with the same identity and the same list keeps the
/// invariant.
pub proof fn lemma_user_replaced_inv(s: StoreView, id: u64, user: UserView)
    requires
        s.inv(),
        s.users.contains_key(id),
        user.id == id,
        user.recipes == s.users[id].recipes,
    ensures
        (StoreView { users: s.users.insert(id, user), ..s }).inv(),
{
    let t = StoreView { users: s.users.insert(id, user), ..s };
    assert forall|u: u64, r: u64|
        t.users.contains_key(u) && #[trigger] t.users[u].recipes.contains(
            r,
        ) implies t.recipes.contains_key(r) && t.recipes[r].user_id == u by {
        assert(s.users[u].recipes.contains(r));
    }
    assert forall|r: u64| #[trigger]
        t.recipes.contains_key(r) implies t.users[t.recipes[r].user_id].recipes.contains(r) by {
        assert(s.recipes.contains_key(r));
    }
    assert forall|u: u64| #[trigger]
        t.users.contains_key(u) implies t.users[u].recipes.no_duplicates() by {
        assert(s.users.contains_key(u));
    }
}

/// Registering a user keeps the invariant.
pub proof fn lemma_add_user_inv(s: StoreView, payload: UserPayload)
    requires
        s.inv(),
        add_user_refusal(s, payload) is None,
    ensures
        user_added(s, payload).inv(),
{
    let t = user_added(s, payload);
    assert forall|u: u64, r: u64|
        t.users.contains_key(u) && #[trigger] t.users[u].recipes.contains(
            r,
        ) implies t.recipes.contains_key(r) && t.recipes[r].user_id == u by {
        if u != s.next_id {
            assert(s.users[u].recipes.contains(r));
        }
    }
    assert forall|r: u64| #[trigger]
        t.recipes.contains_key(r) implies t.users[t.recipes[r].user_id].recipes.contains(r) by {
        assert(s.recipes.contains_key(r));
        assert(s.users.contains_key(s.recipes[r].user_id));
    }
    assert forall|u: u64| #[trigger]
        t.users.contains_key(u) implies t.users[u].recipes.no_duplicates() by {
        if u != s.next_id {
            assert(s.users.contains_key(u));
        }
    }
}

/// Creating a recipe keeps the invariant.
pub proof fn lemma_add_recipe_inv(s: StoreView, payload: RecipePayload)
    requires
        s.inv(),
        add_recipe_refusal(s, payload) is None,
    ensures
        recipe_added(s, payload).inv(),
{
    let t = recipe_added(s, payload);
    let id = s.next_id;
    let owner = payload.owner_id;
    assert forall|u: u64, r: u64|
        t.users.contains_key(u) && #[trigger] t.users[u].recipes.contains(
            r,
        ) implies t.recipes.contains_key(r) && t.recipes[r].user_id == u by {
        if u == owner {
            lemma_push_contains(s.users[owner].recipes, id, r);
        }
        if r != id {
            assert(s.users[u].recipes.contains(r));
        }
    }
    assert forall|r: u64| #[trigger]
        t.recipes.contains_key(r) implies t.users[t.recipes[r].user_id].recipes.contains(r) by {
        lemma_push_contains(s.users[owner].recipes, id, r);
        if r != id {
            assert(s.recipes.contains_key(r));
            assert(s.users.contains_key(s.recipes[r].user_id));
        }
    }
    assert forall|u: u64| #[trigger]
        t.users.contains_key(u) implies t.users[u].recipes.no_duplicates() by {
        assert(s.users.contains_key(u));
        if u == owner {
            lemma_push_no_duplicates(s.users[owner].recipes, id);
        }
    }
    assert forall|r: u64| #[trigger] t.recipes.contains_key(r) implies t.users.contains_key(
        t.recipes[r].user_id,
    ) by {
        if r != id {
            assert(s.recipes.contains_key(r));
        }
    }
}

/// A purchase keeps the invariant.
pub proof fn lemma_purchase_inv(s: StoreView, payload: BuyNftPayload)
    requires
        s.inv(),
        purchase_refusal(s, payload) is None,
    ensures
        purchased(s, payload).inv(),
{
    let t = purchased(s, payload);
    let sold = payload.recipe_id;
    let buyer = payload.user_id;
    let seller = s.recipes[sold].user_id;
    assert(s.recipes.contains_key(sold));
    assert(s.users.contains_key(seller));
    assert forall|u: u64, r: u64|
        t.users.contains_key(u) && #[trigger] t.users[u].recipes.contains(
            r,
        ) implies t.recipes.contains_key(r) && t.recipes[r].user_id == u by {
        if u == buyer {
            lemma_push_contains(s.users[buyer].recipes, sold, r);
        } else if u == seller {
            lemma_without_contains(s.users[seller].recipes, sold, r);
        }
        if r != sold {
            assert(s.users[u].recipes.contains(r));
        } else if u != buyer && u != seller {
            assert(s.users[u].recipes.contains(r));
        }
    }
    assert forall|r: u64| #[trigger]
        t.recipes.contains_key(r) implies t.users[t.recipes[r].user_id].recipes.contains(r) by {
        lemma_push_contains(s.users[buyer].recipes, sold, r);
        lemma_without_contains(s.users[seller].recipes, sold, r);
        if r != sold {
            assert(s.recipes.contains_key(r));
            assert(s.users.contains_key(s.recipes[r].user_id));
        }
    }
    assert forall|u: u64| #[trigger]
        t.users.contains_key(u) implies t.users[u].recipes.no_duplicates() by {
        assert(s.users.contains_key(u));
        if u == buyer {
            lemma_push_no_duplicates(s.users[buyer].recipes, sold);
        } else if u == seller {
            lemma_without_no_duplicates(s.users[seller].recipes, sold);
        }
    }
    assert forall|r: u64| #[trigger] t.recipes.contains_key(r) implies t.users.contains_key(
        t.recipes[r].user_id,
    ) by {
        if r != sold {
            assert(s.recipes.contains_key(r));
        }
    }
    assert forall|r: u64| #[trigger]
        t.recipes.contains_key(r) && t.recipes[r].is_community implies t.recipes[r].price
        == 0 by {
        assert(s.recipes.contains_key(r));
    }
}

/// The owner's edit keeps the invariant.
pub proof fn lemma_edit_owned_inv(s: StoreView, payload: EditRecipePayload)
    requires
        s.inv(),
        edit_owned_refusal(s, payload) is None,
    ensures
        owned_edited(s, payload).inv(),
{
    lemma_recipe_replaced_inv(
        s,
        payload.recipe_id,
        owned_edited(s, payload).recipes[payload.recipe_id],
    );
}

/// A community edit keeps the invariant.
pub proof fn lemma_edit_community_inv(s: StoreView, payload: EditCommunityRecipe)
    requires
        s.inv(),
        edit_community_refusal(s, payload) is None,
    ensures
        community_edited(s, payload).inv(),
{
    lemma_recipe_replaced_inv(
        s,
        payload.recipe_id,
        community_edited(s, payload).recipes[payload.recipe_id],
    );
}

/// A review keeps the invariant.
pub proof fn lemma_add_review_inv(s: StoreView, payload: ReviewPayload)
    requires
        s.inv(),
        add_review_refusal(s, payload) is None,
    ensures
        review_added(s, payload).inv(),
{
    lemma_recipe_replaced_inv(
        s,
        payload.recipe_id,
        review_added(s, payload).recipes[payload.recipe_id],
    );
}

/// Creating the contract keeps the invariant.
pub proof fn lemma_init_contract_inv(s: StoreView, payload: InitPayload)
    requires
        s.inv(),
        init_contract_refusal(s, payload) is None,
    ensures
        contract_initialised(s, payload).inv(),
{
}

/// Funding a user keeps the invariant.
pub proof fn lemma_fund_user_inv(s: StoreView, payload: FundUser)
    requires
        s.inv(),
        fund_user_refusal(s, payload) is None,
    ensures
        funded(s, payload).inv(),
{
    lemma_user_replaced_inv(s, payload.user_id, funded(s, payload).users[payload.user_id]);
}

} // verus!
