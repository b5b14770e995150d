//! The contract: the one record that gates the funding of users.

use crate::codec::{
    frame_size, lemma_frame_len, payloads, read_text, read_u64, text_of, u64_of, write_text,
};
use crate::record::{encoding, Record};
use vstd::bytes::*;
use vstd::prelude::*;
use vstd::utf8::*;

verus! {

/// The identity under which the contract is stored.
pub const CONTRACT_ID: u64 = 0;

/// The contract as it is stored.
#[derive(Clone, Debug, PartialEq, Eq)]
pub struct Contract {
    pub id: u64,
    pub email: String,
    pub password: String,
}

/// The contract as the contracts of the operations speak of it.
#[verifier::ext_equal]
pub struct ContractView {
    pub id: u64,
    pub email: Seq<char>,
    pub password: Seq<char>,
}

impl View for Contract {
    type V = ContractView;

    open spec fn view(&self) -> ContractView {
        ContractView { id: self.id, email: self.email@, password: self.password@ }
    }
}

/// The request to initialise the contract.
#[derive(Clone, Debug, PartialEq, Eq)]
pub struct InitPayload {
    pub email: String,
    pub password: String,
}

impl Record for Contract {
    open spec fn identity_of(v: ContractView) -> u64 {
        v.id
    }

    open spec fn fields_of(v: ContractView) -> Seq<Seq<u8>> {
        seq![spec_u64_to_le_bytes(v.id), encode_utf8(v.email), encode_utf8(v.password)]
    }

    open spec fn from_fields(fields: Seq<Seq<u8>>) -> Option<ContractView> {
        if fields.len() == 3 && u64_of(fields[0]) is Some && text_of(fields[1]) is Some && text_of(
            fields[2],
        ) is Some {
            Some(
                ContractView {
                    id: u64_of(fields[0])->0,
                    email: text_of(fields[1])->0,
                    password: text_of(fields[2])->0,
                },
            )
        } else {
            None
        }
    }

    proof fn lemma_fields_round_trip(v: ContractView) {
        broadcast use encode_utf8_valid_utf8, encode_utf8_decode_utf8;

        lemma_auto_spec_u64_to_from_le_bytes();
    }

    fn identity(&self) -> (id: u64) {
        self.id
    }

    fn to_fields(&self) -> (fields: Option<Vec<Vec<u8>>>) {
        let mut fields: Vec<Vec<u8>> = Vec::new();
        fields.push(u64_to_le_bytes(self.id));
        fields.push(write_text(&self.email));
        fields.push(write_text(&self.password));
        assert(payloads(fields) =~= Self::fields_of(self@));
        Some(fields)
    }

    fn of_fields(fields: &Vec<Vec<u8>>) -> (record: Option<Self>) {
        if fields.len() != 3 {
            return None;
        }
        let id = match read_u64(fields[0].as_slice()) {
            Some(id) => id,
            None => { return None; },
        };
        let email = match read_text(fields[1].as_slice()) {
            Some(email) => email,
            None => { return None; },
        };
        let password = match read_text(fields[2].as_slice()) {
            Some(password) => password,
            None => { return None; },
        };
        Some(Contract { id, email, password })
    }
}

/// The size of the stored contract: twenty bytes of framing and identity, and
/// the two texts in UTF-8.
pub open spec fn contract_size(v: ContractView) -> nat {
    20 + encode_utf8(v.email).len() + encode_utf8(v.password).len()
}

/// The stored contract has that size.
pub proof fn lemma_contract_size(v: ContractView)
    ensures
        encoding::<Contract>(v).len() == contract_size(v),
{
    reveal_with_fuel(frame_size, 4);
    lemma_auto_spec_u64_to_from_le_bytes();
    lemma_frame_len(Contract::fields_of(v));
}

} // verus!
