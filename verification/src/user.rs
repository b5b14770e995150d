//! Users: the stored record, what the marketplace shows of it, and the
//! requests that create and fund one.

use crate::codec::{
    frame_size, ids_bytes, ids_of, lemma_frame_len, lemma_ids_bytes_len, lemma_ids_round_trip,
    payloads, read_ids, read_text, read_u32, read_u64, text_of, u32_of, u64_of, write_ids,
    write_text,
};
use crate::record::{encoding, Record};
use vstd::bytes::*;
use vstd::prelude::*;
use vstd::utf8::*;

verus! {

/// A user as it is stored.
#[derive(Clone, Debug, PartialEq, Eq)]
pub struct User {
    pub id: u64,
    pub name: String,
    pub password: String,
    pub email: String,
    pub balance: u32,
    /// The recipes that the user owns, in the order in which they came.
    pub recipes: Vec<u64>,
}

/// A user as the contracts speak of it.
#[verifier::ext_equal]
pub struct UserView {
    pub id: u64,
    pub name: Seq<char>,
    pub password: Seq<char>,
    pub email: Seq<char>,
    pub balance: u32,
    pub recipes: Seq<u64>,
}

impl View for User {
    type V = UserView;

    open spec fn view(&self) -> UserView {
        UserView {
            id: self.id,
            name: self.name@,
            password: self.password@,
            email: self.email@,
            balance: self.balance,
            recipes: self.recipes@,
        }
    }
}

/// What the marketplace shows of a user: everything but the password.
#[derive(Clone, Debug, PartialEq, Eq)]
pub struct ReturnUser {
    pub id: u64,
    pub name: String,
    pub email: String,
    pub recipes: Vec<u64>,
    pub balance: u32,
}

#[verifier::ext_equal]
/// What is shown of a user, as the contracts speak of it.
pub struct ReturnUserView {
    pub id: u64,
    pub name: Seq<char>,
    pub email: Seq<char>,
    pub recipes: Seq<u64>,
    pub balance: u32,
}

impl View for ReturnUser {
    type V = ReturnUserView;

    open spec fn view(&self) -> ReturnUserView {
        ReturnUserView {
            id: self.id,
            name: self.name@,
            email: self.email@,
            recipes: self.recipes@,
            balance: self.balance,
        }
    }
}

impl UserView {
    /// What is shown of the user.
    pub open spec fn shown(self) -> ReturnUserView {
        ReturnUserView {
            id: self.id,
            name: self.name,
            email: self.email,
            recipes: self.recipes,
            balance: self.balance,
        }
    }
}

impl User {
    /// Hides the password.
    pub fn into_shown(self) -> (shown: ReturnUser)
        ensures
            shown@ == self@.shown(),
    {
        ReturnUser {
            id: self.id,
            name: self.name,
            email: self.email,
            recipes: self.recipes,
            balance: self.balance,
        }
    }
}

/// The request to register a user.
#[derive(Clone, Debug, PartialEq, Eq)]
pub struct UserPayload {
    pub name: String,
    pub password: String,
    pub email: String,
}

/// The request to credit a user's balance.
#[derive(Clone, Debug, PartialEq, Eq)]
pub struct FundUser {
    pub user_id: u64,
    pub amount: u32,
    pub password: String,
}

impl Record for User {
    open spec fn identity_of(v: UserView) -> u64 {
        v.id
    }

    open spec fn fields_of(v: UserView) -> Seq<Seq<u8>> {
        seq![
            spec_u64_to_le_bytes(v.id),
            encode_utf8(v.name),
            encode_utf8(v.password),
            encode_utf8(v.email),
            spec_u32_to_le_bytes(v.balance),
            ids_bytes(v.recipes),
        ]
    }

    open spec fn from_fields(fields: Seq<Seq<u8>>) -> Option<UserView> {
        if fields.len() == 6 && u64_of(fields[0]) is Some && text_of(fields[1]) is Some && text_of(
            fields[2],
        ) is Some && text_of(fields[3]) is Some && u32_of(fields[4]) is Some && ids_of(
            fields[5],
        ) is Some {
            Some(
                UserView {
                    id: u64_of(fields[0])->0,
                    name: text_of(fields[1])->0,
                    password: text_of(fields[2])->0,
                    email: text_of(fields[3])->0,
                    balance: u32_of(fields[4])->0,
                    recipes: ids_of(fields[5])->0,
                },
            )
        } else {
            None
        }
    }

    proof fn lemma_fields_round_trip(v: UserView) {
        broadcast use encode_utf8_valid_utf8, encode_utf8_decode_utf8;

        lemma_auto_spec_u64_to_from_le_bytes();
        lemma_auto_spec_u32_to_from_le_bytes();
        lemma_ids_round_trip(v.recipes);
    }

    fn identity(&self) -> (id: u64) {
        self.id
    }

    fn to_fields(&self) -> (fields: Option<Vec<Vec<u8>>>) {
        let mut fields: Vec<Vec<u8>> = Vec::new();
        fields.push(u64_to_le_bytes(self.id));
        fields.push(write_text(&self.name));
        fields.push(write_text(&self.password));
        fields.push(write_text(&self.email));
        fields.push(u32_to_le_bytes(self.balance));
        fields.push(write_ids(&self.recipes));
        assert(payloads(fields) =~= Self::fields_of(self@));
        Some(fields)
    }

    fn of_fields(fields: &Vec<Vec<u8>>) -> (record: Option<Self>) {
        if fields.len() != 6 {
            return None;
        }
        let id = match read_u64(fields[0].as_slice()) {
            Some(id) => id,
            None => { return None; },
        };
        let name = match read_text(fields[1].as_slice()) {
            Some(name) => name,
            None => { return None; },
        };
        let password = match read_text(fields[2].as_slice()) {
            Some(password) => password,
            None => { return None; },
        };
        let email = match read_text(fields[3].as_slice()) {
            Some(email) => email,
            None => { return None; },
        };
        let balance = match read_u32(fields[4].as_slice()) {
            Some(balance) => balance,
            None => { return None; },
        };
        let recipes = match read_ids(fields[5].as_slice()) {
            Some(recipes) => recipes,
            None => { return None; },
        };
        Some(User { id, name, password, email, balance, recipes })
    }
}

/// The size of a stored user: thirty-six bytes of framing and numbers, the
/// three texts in UTF-8, and eight bytes for each recipe of the list.
pub open spec fn user_size(v: UserView) -> nat {
    36 + encode_utf8(v.name).len() + encode_utf8(v.password).len() + encode_utf8(v.email).len() + 8
        * v.recipes.len()
}

/// A stored user has that size.
pub proof fn lemma_user_size(v: UserView)
    ensures
        encoding::<User>(v).len() == user_size(v),
{
    reveal_with_fuel(frame_size, 7);
    lemma_auto_spec_u64_to_from_le_bytes();
    lemma_auto_spec_u32_to_from_le_bytes();
    lemma_ids_bytes_len(v.recipes);
    lemma_frame_len(User::fields_of(v));
}

} // verus!
