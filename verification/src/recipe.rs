//! Recipes: the stored record and the requests that create, edit, review and
//! buy one.

use crate::codec::{
    fields_fit, flag_bytes, flag_of, frame, frame_size, lemma_frame_len, lemma_frame_size_covers,
    lemma_texts_round_trip, payloads, read_flag, read_frame, read_text, read_texts, read_u32,
    read_u64, text_of, texts_fields, texts_of, texts_view, u32_of, u64_of, write_flag,
    write_frame, write_text, write_texts,
};
use crate::record::{encoding, Record, MAX_RECORD_SIZE};
use vstd::bytes::*;
use vstd::prelude::*;
use vstd::utf8::*;

verus! {

/// A recipe as it is stored.
#[derive(Clone, Debug, PartialEq, Eq)]
pub struct Recipe {
    pub id: u64,
    pub title: String,
    pub category: String,
    pub description: String,
    pub price: u32,
    /// The identity of the user that owns the recipe.
    pub user_id: u64,
    pub is_community: bool,
    pub is_for_sale: bool,
    /// The reviews, oldest first.
    pub reviews: Vec<String>,
}

/// A recipe as the contracts speak of it.
#[verifier::ext_equal]
pub struct RecipeView {
    pub id: u64,
    pub title: Seq<char>,
    pub category: Seq<char>,
    pub description: Seq<char>,
    pub price: u32,
    pub user_id: u64,
    pub is_community: bool,
    pub is_for_sale: bool,
    pub reviews: Seq<Seq<char>>,
}

impl View for Recipe {
    type V = RecipeView;

    open spec fn view(&self) -> RecipeView {
        RecipeView {
            id: self.id,
            title: self.title@,
            category: self.category@,
            description: self.description@,
            price: self.price,
            user_id: self.user_id,
            is_community: self.is_community,
            is_for_sale: self.is_for_sale,
            reviews: texts_view(self.reviews),
        }
    }
}

/// The request to create a recipe.
#[derive(Clone, Debug, PartialEq, Eq)]
pub struct RecipePayload {
    pub title: String,
    pub category: String,
    pub description: String,
    pub is_community: bool,
    pub is_for_sale: bool,
    pub price: u32,
    pub owner_id: u64,
}

/// The request to add a review to a recipe.
#[derive(Clone, Debug, PartialEq, Eq)]
pub struct ReviewPayload {
    pub recipe_id: u64,
    pub review: String,
}

/// The owner's request to edit a recipe.
#[derive(Clone, Debug, PartialEq, Eq)]
pub struct EditRecipePayload {
    pub recipe_id: u64,
    pub title: String,
    pub description: String,
    pub is_community: bool,
    pub is_for_sale: bool,
    pub price: u32,
    pub password: String,
}

/// Anyone's request to rewrite the description of a community recipe.
#[derive(Clone, Debug, PartialEq, Eq)]
pub struct EditCommunityRecipe {
    pub recipe_id: u64,
    pub user_id: u64,
    pub description: String,
}

/// The request to buy a recipe.
#[derive(Clone, Debug, PartialEq, Eq)]
pub struct BuyNftPayload {
    pub recipe_id: u64,
    pub user_id: u64,
    pub password: String,
}

impl Record for Recipe {
    open spec fn identity_of(v: RecipeView) -> u64 {
        v.id
    }

    open spec fn fields_of(v: RecipeView) -> Seq<Seq<u8>> {
        seq![
            spec_u64_to_le_bytes(v.id),
            encode_utf8(v.title),
            encode_utf8(v.category),
            encode_utf8(v.description),
            spec_u32_to_le_bytes(v.price),
            spec_u64_to_le_bytes(v.user_id),
            flag_bytes(v.is_community),
            flag_bytes(v.is_for_sale),
            frame(texts_fields(v.reviews)),
        ]
    }

    open spec fn from_fields(fields: Seq<Seq<u8>>) -> Option<RecipeView> {
        if fields.len() == 9 && u64_of(fields[0]) is Some && text_of(fields[1]) is Some && text_of(
            fields[2],
        ) is Some && text_of(fields[3]) is Some && u32_of(fields[4]) is Some && u64_of(
            fields[5],
        ) is Some && flag_of(fields[6]) is Some && flag_of(fields[7]) is Some && texts_of(
            fields[8],
        ) is Some {
            Some(
                RecipeView {
                    id: u64_of(fields[0])->0,
                    title: text_of(fields[1])->0,
                    category: text_of(fields[2])->0,
                    description: text_of(fields[3])->0,
                    price: u32_of(fields[4])->0,
                    user_id: u64_of(fields[5])->0,
                    is_community: flag_of(fields[6])->0,
                    is_for_sale: flag_of(fields[7])->0,
                    reviews: texts_of(fields[8])->0,
                },
            )
        } else {
            None
        }
    }

    proof fn lemma_fields_round_trip(v: RecipeView) {
        broadcast use encode_utf8_valid_utf8, encode_utf8_decode_utf8;

        lemma_auto_spec_u64_to_from_le_bytes();
        lemma_auto_spec_u32_to_from_le_bytes();
        let inner = texts_fields(v.reviews);
        assert(Self::fields_of(v)[8] == frame(inner));
        lemma_frame_len(inner);
        assert forall|i: int| 0 <= i < inner.len() implies (#[trigger] inner[i]).len()
            <= u32::MAX by {
            lemma_frame_size_covers(inner, i);
        }
        lemma_texts_round_trip(v.reviews);
    }

    fn identity(&self) -> (id: u64) {
        self.id
    }

    fn to_fields(&self) -> (fields: Option<Vec<Vec<u8>>>) {
        let texts = write_texts(&self.reviews);
        let reviews = match write_frame(&texts, MAX_RECORD_SIZE) {
            Some(reviews) => reviews,
            None => {
                proof {
                    let inner = texts_fields(self@.reviews);
                    lemma_frame_len(inner);
                    lemma_frame_size_covers(Self::fields_of(self@), 8);
                }
                return None;
            },
        };
        let mut fields: Vec<Vec<u8>> = Vec::new();
        fields.push(u64_to_le_bytes(self.id));
        fields.push(write_text(&self.title));
        fields.push(write_text(&self.category));
        fields.push(write_text(&self.description));
        fields.push(u32_to_le_bytes(self.price));
        fields.push(u64_to_le_bytes(self.user_id));
        fields.push(write_flag(self.is_community));
        fields.push(write_flag(self.is_for_sale));
        fields.push(reviews);
        assert(payloads(fields) =~= Self::fields_of(self@));
        Some(fields)
    }

    fn of_fields(fields: &Vec<Vec<u8>>) -> (record: Option<Self>) {
        if fields.len() != 9 {
            return None;
        }
        let id = match read_u64(fields[0].as_slice()) {
            Some(id) => id,
            None => { return None; },
        };
        let title = match read_text(fields[1].as_slice()) {
            Some(title) => title,
            None => { return None; },
        };
        let category = match read_text(fields[2].as_slice()) {
            Some(category) => category,
            None => { return None; },
        };
        let description = match read_text(fields[3].as_slice()) {
            Some(description) => description,
            None => { return None; },
        };
        let price = match read_u32(fields[4].as_slice()) {
            Some(price) => price,
            None => { return None; },
        };
        let user_id = match read_u64(fields[5].as_slice()) {
            Some(user_id) => user_id,
            None => { return None; },
        };
        let is_community = match read_flag(fields[6].as_slice()) {
            Some(flag) => flag,
            None => { return None; },
        };
        let is_for_sale = match read_flag(fields[7].as_slice()) {
            Some(flag) => flag,
            None => { return None; },
        };
        let texts = match read_frame(fields[8].as_slice()) {
            Some(texts) => texts,
            None => { return None; },
        };
        let reviews = match read_texts(&texts) {
            Some(reviews) => reviews,
            None => { return None; },
        };
        Some(
            Recipe {
                id,
                title,
                category,
                description,
                price,
                user_id,
                is_community,
                is_for_sale,
                reviews,
            },
        )
    }
}

/// The size of a stored recipe: fifty-eight bytes of framing, numbers and
/// flags, the three texts in UTF-8, and the frame of the reviews.
pub open spec fn recipe_size(v: RecipeView) -> nat {
    58 + encode_utf8(v.title).len() + encode_utf8(v.category).len() + encode_utf8(
        v.description,
    ).len() + frame_size(texts_fields(v.reviews))
}

/// A stored recipe has that size.
pub proof fn lemma_recipe_size(v: RecipeView)
    ensures
        encoding::<Recipe>(v).len() == recipe_size(v),
{
    reveal_with_fuel(frame_size, 10);
    lemma_auto_spec_u64_to_from_le_bytes();
    lemma_auto_spec_u32_to_from_le_bytes();
    lemma_frame_len(texts_fields(v.reviews));
    lemma_frame_len(Recipe::fields_of(v));
}

} // verus!
