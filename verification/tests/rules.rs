use recipe_nft_backend::contract::InitPayload;
use recipe_nft_backend::error::{Error, Rule};
use recipe_nft_backend::recipe::RecipePayload;
use recipe_nft_backend::user::UserPayload;

const TOO_SHORT: Result<(), Error> = Err(Error::InvalidPayload { rule: Rule::TooShort });

fn user(name: &str, password: &str) -> UserPayload {
    UserPayload { name: name.to_string(), password: password.to_string(), email: String::new() }
}

fn recipe(title: &str, description: &str) -> RecipePayload {
    RecipePayload {
        title: title.to_string(),
        category: String::new(),
        description: description.to_string(),
        is_community: false,
        is_for_sale: false,
        price: 0,
        owner_id: 0,
    }
}

fn contract(email: &str, password: &str) -> InitPayload {
    InitPayload { email: email.to_string(), password: password.to_string() }
}

#[test]
fn user_texts() {
    assert_eq!(user("bob", "pw1").validate(), Ok(()));
    assert_eq!(user("bo", "pw1").validate(), TOO_SHORT);
    assert_eq!(user("bob", "pw").validate(), TOO_SHORT);
    assert_eq!(user("", "").validate(), TOO_SHORT);
    assert_eq!(user("a long name", "a long password").validate(), Ok(()));
}

#[test]
fn recipe_texts() {
    assert_eq!(recipe("Pie", "bake..").validate(), Ok(()));
    assert_eq!(recipe("Pi", "bake..").validate(), TOO_SHORT);
    assert_eq!(recipe("Pie", "bake.").validate(), TOO_SHORT);
}

#[test]
fn contract_texts() {
    assert_eq!(contract("c@x", "cpw1").validate(), Ok(()));
    assert_eq!(contract("c@", "cpw1").validate(), TOO_SHORT);
    assert_eq!(contract("c@x", "cpw").validate(), TOO_SHORT);
}

#[test]
fn lengths_count_characters() {
    // Two letters of two bytes each are still two letters.
    assert_eq!("éé".len(), 4);
    assert_eq!(user("éé", "pw1").validate(), TOO_SHORT);
    assert_eq!(user("ééé", "pw1").validate(), Ok(()));
    assert_eq!(contract("c@x", "€€€").validate(), TOO_SHORT);
    assert_eq!(contract("c@x", "€€€€").validate(), Ok(()));
}
