//! The catalogue: the recipes of the marketplace, listed and searched.

use crate::codec::texts_view;
use crate::error::{Entity, Error};
use crate::recipe::{Recipe, RecipeView};
use crate::store::Store;
use crate::text::{contains_text, lowercase, occurs_in, to_lowercase};
use vstd::prelude::*;

verus! {

/// What a listing asks of a recipe.
pub enum Filter {
    /// Nothing.
    All,
    /// That it is for sale and no community recipe.
    ForSale,
    /// That its category or its title holds the text. The text and the recipe
    /// are compared in lowercase; the filter holds the text in lowercase.
    Search { lowered: String },
}

/// The recipe is for sale and no community recipe.
pub open spec fn on_offer(recipe: RecipeView) -> bool {
    recipe.is_for_sale && !recipe.is_community
}

/// The category or the title holds the query, both taken in lowercase.
pub open spec fn found_by(recipe: RecipeView, lowered: Seq<char>) -> bool {
    occurs_in(lowered, lowercase(recipe.category)) || occurs_in(lowered, lowercase(recipe.title))
}

impl Filter {
    /// The recipes that the filter lets through.
    pub open spec fn wants(self, recipe: RecipeView) -> bool {
        match self {
            Filter::All => true,
            Filter::ForSale => on_offer(recipe),
            Filter::Search { lowered } => found_by(recipe, lowered@),
        }
    }

    /// Whether the filter lets the recipe through.
    pub fn accepts(&self, recipe: &Recipe) -> (wanted: bool)
        ensures
            wanted == self.wants(recipe@),
    {
        match self {
            Filter::All => true,
            Filter::ForSale => recipe.is_for_sale && !recipe.is_community,
            Filter::Search { lowered } => {
                let category = to_lowercase(recipe.category.as_str());
                let title = to_lowercase(recipe.title.as_str());
                matches_query(&category, &title, lowered)
            },
        }
    }
}

/// Whether the category or the title holds the query. All three are taken as
/// they are given.
pub fn matches_query(category: &String, title: &String, query: &String) -> (found: bool)
    ensures
        found == (occurs_in(query@, category@) || occurs_in(query@, title@)),
{
    contains_text(category.as_str(), query.as_str()) || contains_text(
        title.as_str(),
        query.as_str(),
    )
}

/// The recipes of a list, as the contracts speak of them.
pub open spec fn recipes_view(recipes: Vec<Recipe>) -> Seq<RecipeView> {
    Seq::new(recipes@.len(), |i: int| recipes@[i]@)
}

/// `found` lists, by ascending identity and once each, the recipes that are
/// wanted.
pub open spec fn lists(
    found: Seq<RecipeView>,
    recipes: Map<u64, RecipeView>,
    wanted: spec_fn(RecipeView) -> bool,
) -> bool {
    &&& forall|i: int, j: int| 0 <= i < j < found.len() ==> found[i].id < found[j].id
    &&& forall|i: int|
        0 <= i < found.len() ==> recipes.contains_key((#[trigger] found[i]).id)
            && recipes[found[i].id] == found[i] && wanted(found[i])
    &&& forall|r: u64|
        recipes.contains_key(r) && wanted(#[trigger] recipes[r]) ==> exists|i: int|
            0 <= i < found.len() && (#[trigger] found[i]).id == r
}

impl Recipe {
    /// A copy of the recipe.
    pub fn copy(&self) -> (same: Recipe)
        ensures
            same@ == self@,
    {
        let mut reviews: Vec<String> = Vec::new();
        let mut i: usize = 0;
        while i < self.reviews.len()
            invariant
                i <= self.reviews.len(),
                reviews@.len() == i,
                forall|j: int| 0 <= j < i ==> (#[trigger] reviews@[j])@ == self.reviews@[j]@,
            decreases self.reviews.len() - i,
        {
            reviews.push(self.reviews[i].clone());
            i = i + 1;
        }
        assert(texts_view(reviews) =~= texts_view(self.reviews));
        Recipe {
            id: self.id,
            title: self.title.clone(),
            category: self.category.clone(),
            description: self.description.clone(),
            price: self.price,
            user_id: self.user_id,
            is_community: self.is_community,
            is_for_sale: self.is_for_sale,
            reviews,
        }
    }
}

/// The recipes that the filter lets through, by ascending identity.
pub fn list_recipes(store: &Store, filter: &Filter) -> (found: Vec<Recipe>)
    ensures
        lists(recipes_view(found), store@.recipes, |recipe: RecipeView| filter.wants(recipe)),
{
    let records = store.recipes.iterate();
    let mut found: Vec<Recipe> = Vec::new();
    let mut at: usize = 0;
    // For each recipe found, the record it was copied from; for each record,
    // the place of its copy, or -1.
    let ghost mut origin: Seq<int> = Seq::empty();
    let ghost mut slot: Seq<int> = Seq::empty();
    while at < records.len()
        invariant
            at <= records.len(),
            forall|i: int, j: int| 0 <= i < j < records.len() ==> records[i].0 < records[j].0,
            forall|i: int|
                0 <= i < records.len() ==> store@.recipes.contains_key((#[trigger] records[i]).0)
                    && store@.recipes[records[i].0] == records[i].1@ && records[i].1@.id
                    == records[i].0,
            origin.len() == found.len(),
            slot.len() == at,
            forall|i: int|
                0 <= i < found.len() ==> 0 <= #[trigger] origin[i] < at && found[i]@
                    == records[origin[i]].1@ && filter.wants(found[i]@),
            forall|i: int, j: int|
                0 <= i < j < found.len() ==> #[trigger] origin[i] < #[trigger] origin[j],
            forall|e: int|
                0 <= e < at && filter.wants(records[e].1@) ==> 0 <= #[trigger] slot[e]
                    < found.len() && found[slot[e]]@ == records[e].1@,
        decreases records.len() - at,
    {
        let ghost before = found@;
        let ghost mut copied_to: int = -1;
        if filter.accepts(&records[at].1) {
            found.push(records[at].1.copy());
            proof {
                copied_to = before.len() as int;
                origin = origin.push(at as int);
            }
            assert(forall|i: int| 0 <= i < before.len() ==> found[i] == before[i]);
        }
        proof {
            slot = slot.push(copied_to);
        }
        at = at + 1;
    }
    proof {
        let listed = recipes_view(found);
        assert forall|i: int, j: int| 0 <= i < j < listed.len() implies listed[i].id
            < listed[j].id by {
            assert(origin[i] < origin[j]);
            assert(listed[i] == records[origin[i]].1@);
            assert(listed[j] == records[origin[j]].1@);
        }
        assert forall|i: int| 0 <= i < listed.len() implies store@.recipes.contains_key(
            (#[trigger] listed[i]).id,
        ) && store@.recipes[listed[i].id] == listed[i] && filter.wants(listed[i]) by {
            assert(listed[i] == records[origin[i]].1@);
        }
        assert forall|r: u64|
            store@.recipes.contains_key(r) && filter.wants(
                #[trigger] store@.recipes[r],
            ) implies exists|i: int| 0 <= i < listed.len() && (#[trigger] listed[i]).id == r by {
            let e = choose|e: int| 0 <= e < records.len() && (#[trigger] records[e]).0 == r;
            assert(listed[slot[e]] == records[e].1@);
        }
    }
    found
}

/// The error of a listing that finds nothing.
pub open spec fn none_found() -> Error {
    Error::NotFound { what: Entity::Recipe }
}

/// A listing as an answer: an empty one is an error.
pub fn found_or_error(found: Vec<Recipe>) -> (result: Result<Vec<Recipe>, Error>)
    ensures
        match result {
            Ok(recipes) => recipes == found && found@.len() > 0,
            Err(e) => e == none_found() && found@.len() == 0,
        },
{
    if found.len() == 0 {
        Err(Error::NotFound { what: Entity::Recipe })
    } else {
        Ok(found)
    }
}

/// All recipes, by ascending identity.
pub fn get_all_recipes(store: &Store) -> (result: Result<Vec<Recipe>, Error>)
    ensures
        match result {
            Ok(recipes) => recipes@.len() > 0 && lists(
                recipes_view(recipes),
                store@.recipes,
                |recipe: RecipeView| true,
            ),
            Err(e) => e == none_found() && forall|r: u64| !store@.recipes.contains_key(r),
        },
{
    let found = list_recipes(store, &Filter::All);
    proof {
        lemma_lists_alike(
            recipes_view(found),
            store@.recipes,
            |recipe: RecipeView| Filter::All.wants(recipe),
            |recipe: RecipeView| true,
        );
    }
    found_or_error(found)
}

/// The recipes that are for sale and no community recipes, by ascending
/// identity.
pub fn get_all_for_sale_recipes(store: &Store) -> (result: Result<Vec<Recipe>, Error>)
    ensures
        match result {
            Ok(recipes) => recipes@.len() > 0 && lists(
                recipes_view(recipes),
                store@.recipes,
                |recipe: RecipeView| on_offer(recipe),
            ),
            Err(e) => e == none_found() && forall|r: u64| #[trigger]
                store@.recipes.contains_key(r) ==> !on_offer(store@.recipes[r]),
        },
{
    let found = list_recipes(store, &Filter::ForSale);
    proof {
        lemma_lists_alike(
            recipes_view(found),
            store@.recipes,
            |recipe: RecipeView| Filter::ForSale.wants(recipe),
            |recipe: RecipeView| on_offer(recipe),
        );
    }
    found_or_error(found)
}

/// The recipes whose category or title holds the search text, letter case
/// aside, by ascending identity.
pub fn get_recipe_by_category(store: &Store, search: String) -> (result: Result<
    Vec<Recipe>,
    Error,
>)
    ensures
        match result {
            Ok(recipes) => recipes@.len() > 0 && lists(
                recipes_view(recipes),
                store@.recipes,
                |recipe: RecipeView| found_by(recipe, lowercase(search@)),
            ),
            Err(e) => e == none_found() && forall|r: u64| #[trigger]
                store@.recipes.contains_key(r) ==> !found_by(
                    store@.recipes[r],
                    lowercase(search@),
                ),
        },
{
    let filter = Filter::Search { lowered: to_lowercase(search.as_str()) };
    let found = list_recipes(store, &filter);
    proof {
        lemma_lists_alike(
            recipes_view(found),
            store@.recipes,
            |recipe: RecipeView| filter.wants(recipe),
            |recipe: RecipeView| found_by(recipe, lowercase(search@)),
        );
    }
    found_or_error(found)
}

/// A listing for one wish is a listing for any wish that wants the same
/// recipes, and an empty listing means that no recipe is wanted.
pub proof fn lemma_lists_alike(
    found: Seq<RecipeView>,
    recipes: Map<u64, RecipeView>,
    wanted: spec_fn(RecipeView) -> bool,
    same: spec_fn(RecipeView) -> bool,
)
    requires
        lists(found, recipes, wanted),
        forall|recipe: RecipeView|
            #![trigger wanted(recipe)]
            #![trigger same(recipe)]
            wanted(recipe) == same(recipe),
    ensures
        lists(found, recipes, same),
        found.len() == 0 ==> forall|r: u64| #[trigger]
            recipes.contains_key(r) ==> !same(recipes[r]),
{
}

/// The recipe with the identity.
pub fn get_recipe_by_id(store: &Store, id: u64) -> (result: Result<Recipe, Error>)
    ensures
        match result {
            Ok(recipe) => store@.recipes.contains_key(id) && recipe@ == store@.recipes[id],
            Err(e) => !store@.recipes.contains_key(id) && e == none_found(),
        },
{
    match store.recipes.get(id) {
        Some(recipe) => Ok(recipe),
        None => Err(Error::NotFound { what: Entity::Recipe }),
    }
}

} // verus!
