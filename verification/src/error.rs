//! The errors that the operations of the marketplace return.

use vstd::prelude::*;

verus! {

/// What an operation looked for and did not find.
#[derive(Clone, Copy, Debug, PartialEq, Eq, Structural)]
pub enum Entity {
    /// The user that the request names.
    User,
    /// The recipe that the request names.
    Recipe,
    /// The user that a recipe names as its owner.
    Owner,
    /// The contract, which has not been initialised.
    Contract,
}

/// The rule that a request broke.
#[derive(Clone, Copy, Debug, PartialEq, Eq, Structural)]
pub enum Rule {
    /// A text of the request is shorter than its field allows.
    TooShort,
    /// The recipe is a community recipe, which is neither sold nor edited by
    /// its owner alone.
    CommunityRecipe,
    /// The recipe is not for sale.
    NotForSale,
    /// The buyer's balance is lower than the price.
    InsufficientBalance,
    /// The buyer already owns the recipe.
    SelfPurchase,
    /// The recipe is already in the user's list.
    AlreadyOwned,
    /// The balance would no longer fit its type.
    BalanceOverflow,
    /// Every identity has been handed out.
    IdentitiesExhausted,
    /// A record already stands under the identity that would be handed out.
    IdentityTaken,
}

/// Why an operation did nothing.
#[derive(Clone, Copy, Debug, PartialEq, Eq, Structural)]
pub enum Error {
    /// No record stands under the identity.
    NotFound { what: Entity },
    /// The contract has been initialised before.
    AlreadyInit,
    /// The request breaks a rule of the marketplace.
    InvalidPayload { rule: Rule },
    /// The password is not the stored one, or the recipe is not open to the
    /// caller.
    Unauthorized,
    /// A record would be longer than a stored record may be.
    EncodingOverflow,
}

} // verus!
