//! The rules on the texts of a request.
//!
//! The operations of the marketplace take a request as it comes. Whoever
//! receives requests checks them here first and hands on those that pass.

use crate::contract::InitPayload;
use crate::error::{Error, Rule};
use crate::recipe::RecipePayload;
use crate::user::UserPayload;
use validator::ValidateLength;
use vstd::prelude::*;

verus! {

/// Calls `ValidateLength::validate_length` of the `validator` crate with a
/// minimum alone. For a `String` the crate counts characters, and it accepts
/// the text unless the count is below the minimum.
#[verifier::external_body]
pub(crate) fn has_min_length(text: &String, min: u64) -> (ok: bool)
    ensures
        ok == (text@.len() >= min),
{
    text.validate_length(Some(min), None, None)
}

/// The error for a text that is too short.
pub open spec fn too_short() -> Error {
    Error::InvalidPayload { rule: Rule::TooShort }
}

fn accept(ok: bool) -> (checked: Result<(), Error>)
    ensures
        checked is Ok <==> ok,
        checked matches Err(e) ==> e == too_short(),
{
    if ok {
        Ok(())
    } else {
        Err(Error::InvalidPayload { rule: Rule::TooShort })
    }
}

/// The shortest name of a user, in characters.
pub const MIN_NAME: u64 = 3;

/// The shortest password of a user.
pub const MIN_PASSWORD: u64 = 3;

/// The shortest title of a recipe.
pub const MIN_TITLE: u64 = 3;

/// The shortest description of a recipe.
pub const MIN_DESCRIPTION: u64 = 6;

/// The shortest email of the contract.
pub const MIN_CONTRACT_EMAIL: u64 = 3;

/// The shortest password of the contract.
pub const MIN_CONTRACT_PASSWORD: u64 = 4;

impl UserPayload {
    /// Name and password are long enough.
    pub open spec fn valid(&self) -> bool {
        self.name@.len() >= MIN_NAME && self.password@.len() >= MIN_PASSWORD
    }

    /// Accepts the request if it keeps the rules on a user's texts.
    pub fn validate(&self) -> (checked: Result<(), Error>)
        ensures
            checked is Ok <==> self.valid(),
            checked matches Err(e) ==> e == too_short(),
    {
        accept(has_min_length(&self.name, MIN_NAME) && has_min_length(&self.password, MIN_PASSWORD))
    }
}

impl RecipePayload {
    /// Title and description are long enough.
    pub open spec fn valid(&self) -> bool {
        self.title@.len() >= MIN_TITLE && self.description@.len() >= MIN_DESCRIPTION
    }

    /// Accepts the request if it keeps the rules on a recipe's texts.
    pub fn validate(&self) -> (checked: Result<(), Error>)
        ensures
            checked is Ok <==> self.valid(),
            checked matches Err(e) ==> e == too_short(),
    {
        accept(
            has_min_length(&self.title, MIN_TITLE) && has_min_length(
                &self.description,
                MIN_DESCRIPTION,
            ),
        )
    }
}

impl InitPayload {
    /// Email and password are long enough.
    pub open spec fn valid(&self) -> bool {
        self.email@.len() >= MIN_CONTRACT_EMAIL && self.password@.len() >= MIN_CONTRACT_PASSWORD
    }

    /// Accepts the request if it keeps the rules on the contract's texts.
    pub fn validate(&self) -> (checked: Result<(), Error>)
        ensures
            checked is Ok <==> self.valid(),
            checked matches Err(e) ==> e == too_short(),
    {
        accept(
            has_min_length(&self.email, MIN_CONTRACT_EMAIL) && has_min_length(
                &self.password,
                MIN_CONTRACT_PASSWORD,
            ),
        )
    }
}

} // verus!
