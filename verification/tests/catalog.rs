use recipe_nft_backend::catalog::{
    found_or_error, get_all_for_sale_recipes, get_all_recipes, get_recipe_by_category,
    get_recipe_by_id, list_recipes, matches_query, Filter,
};
use recipe_nft_backend::error::{Entity, Error};
use recipe_nft_backend::recipe::Recipe;
use recipe_nft_backend::store::Store;

fn recipe(id: u64, title: &str, category: &str, for_sale: bool, community: bool) -> Recipe {
    Recipe {
        id,
        title: title.to_string(),
        category: category.to_string(),
        description: "as usual".to_string(),
        price: if community { 0 } else { 5 },
        user_id: 1,
        is_community: community,
        is_for_sale: for_sale,
        reviews: vec!["fine".to_string()],
    }
}

fn shelf() -> Store {
    let mut store = Store::new();
    // Stored out of order: listings go by identity.
    for r in [
        recipe(40, "Apple Pie", "Dessert", true, false),
        recipe(10, "Tomato Soup", "dinner", true, false),
        recipe(30, "Bread", "Baking", false, false),
        recipe(20, "Pancakes", "breakfast", true, true),
    ] {
        store.recipes.put(&r).unwrap();
    }
    store
}

fn ids(found: Result<Vec<Recipe>, Error>) -> Vec<u64> {
    found.unwrap().iter().map(|r| r.id).collect()
}

#[test]
fn all_recipes_by_identity() {
    let store = shelf();
    let found = get_all_recipes(&store).unwrap();
    assert_eq!(found.iter().map(|r| r.id).collect::<Vec<_>>(), vec![10, 20, 30, 40]);
    assert_eq!(found[3], recipe(40, "Apple Pie", "Dessert", true, false));
    assert_eq!(found[1], recipe(20, "Pancakes", "breakfast", true, true));
}

#[test]
fn recipes_for_sale() {
    let store = shelf();
    assert_eq!(ids(get_all_for_sale_recipes(&store)), vec![10, 40]);
}

#[test]
fn search_ignores_letter_case() {
    let store = shelf();
    assert_eq!(ids(get_recipe_by_category(&store, "DINNER".to_string())), vec![10]);
    assert_eq!(ids(get_recipe_by_category(&store, "pie".to_string())), vec![40]);
    assert_eq!(ids(get_recipe_by_category(&store, "bAk".to_string())), vec![30]);
    // In a title or in a category.
    assert_eq!(ids(get_recipe_by_category(&store, "ea".to_string())), vec![20, 30]);
    // The empty text is in every text.
    assert_eq!(ids(get_recipe_by_category(&store, String::new())), vec![10, 20, 30, 40]);
}

#[test]
fn search_does_not_read_descriptions() {
    let store = shelf();
    assert_eq!(
        get_recipe_by_category(&store, "usual".to_string()),
        Err(Error::NotFound { what: Entity::Recipe })
    );
}

#[test]
fn empty_listing_is_an_error() {
    let mut store = Store::new();
    let nothing = Err(Error::NotFound { what: Entity::Recipe });
    assert_eq!(get_all_recipes(&store), nothing);
    assert_eq!(get_all_for_sale_recipes(&store), nothing);
    assert_eq!(get_recipe_by_category(&store, "soup".to_string()), nothing);
    store.recipes.put(&recipe(1, "Bread", "Baking", false, false)).unwrap();
    assert_eq!(ids(get_all_recipes(&store)), vec![1]);
    assert_eq!(get_all_for_sale_recipes(&store), nothing);
    assert_eq!(get_recipe_by_category(&store, "soup".to_string()), nothing);
}

#[test]
fn recipe_by_identity() {
    let store = shelf();
    assert_eq!(get_recipe_by_id(&store, 30), Ok(recipe(30, "Bread", "Baking", false, false)));
    assert_eq!(get_recipe_by_id(&store, 31), Err(Error::NotFound { what: Entity::Recipe }));
}

#[test]
fn filters() {
    let pie = recipe(40, "Apple Pie", "Dessert", true, false);
    let pancakes = recipe(20, "Pancakes", "breakfast", true, true);
    let bread = recipe(30, "Bread", "Baking", false, false);
    assert!(Filter::All.accepts(&bread));
    assert!(Filter::ForSale.accepts(&pie));
    assert!(!Filter::ForSale.accepts(&pancakes));
    assert!(!Filter::ForSale.accepts(&bread));
    let search = Filter::Search { lowered: "dess".to_string() };
    assert!(search.accepts(&pie));
    assert!(!search.accepts(&bread));
    // The filter holds its text as it is to be compared.
    assert!(!Filter::Search { lowered: "Dess".to_string() }.accepts(&pie));
    let store = shelf();
    let found = list_recipes(&store, &search);
    assert_eq!(found, vec![pie.clone()]);
    assert_eq!(pie.copy(), pie);
}

#[test]
fn query_is_matched_as_given() {
    let q = |c: &str, t: &str, q: &str| matches_query(&c.to_string(), &t.to_string(), &q.to_string());
    assert!(q("dinner", "soup", "inn"));
    assert!(q("dinner", "soup", "oup"));
    assert!(q("dinner", "soup", ""));
    assert!(q("dinner", "soup", "dinner"));
    assert!(!q("dinner", "soup", "dinners"));
    assert!(!q("dinner", "soup", "Soup"));
    assert!(!q("din", "ner", "dinner"));
    assert!(!q("", "", "a"));
}

#[test]
fn listing_as_an_answer() {
    assert_eq!(found_or_error(vec![]), Err(Error::NotFound { what: Entity::Recipe }));
    let one = vec![recipe(1, "Bread", "Baking", false, false)];
    assert_eq!(found_or_error(one.clone()), Ok(one));
}
