//! What the tables ask of a record: an identity and a byte layout that can be
//! read back.

use crate::codec::{
    fields_fit, frame, frame_size, lemma_frame_len, lemma_frame_size_covers, lemma_unframe_frame,
    payloads, read_frame, unframe, write_frame,
};
use crate::error::Error;
use vstd::prelude::*;

verus! {

/// The longest encoding that a table stores.
pub const MAX_RECORD_SIZE: usize = 1024;

/// A kind of record that a table can hold.
pub trait Record: View + Sized {
    /// The identity under which the record is stored.
    spec fn identity_of(v: Self::V) -> u64;

    /// The fields that the record is written as.
    spec fn fields_of(v: Self::V) -> Seq<Seq<u8>>;

    /// The record that the fields spell out, if they are well formed.
    spec fn from_fields(fields: Seq<Seq<u8>>) -> Option<Self::V>;

    /// Reading the fields of a record gives back the record.
    proof fn lemma_fields_round_trip(v: Self::V)
        requires
            fields_fit(Self::fields_of(v)),
        ensures
            Self::from_fields(Self::fields_of(v)) == Some(v),
    ;

    fn identity(&self) -> (id: u64)
        ensures
            id == Self::identity_of(self@),
    ;

    /// Writes the record as fields, unless it is too long to be stored anyway.
    fn to_fields(&self) -> (fields: Option<Vec<Vec<u8>>>)
        ensures
            match fields {
                Some(f) => payloads(f) == Self::fields_of(self@),
                None => frame_size(Self::fields_of(self@)) > MAX_RECORD_SIZE,
            },
    ;

    /// Reads a record from its fields.
    fn of_fields(fields: &Vec<Vec<u8>>) -> (record: Option<Self>)
        ensures
            match record {
                Some(r) => Self::from_fields(payloads(*fields)) == Some(r@),
                None => Self::from_fields(payloads(*fields)) is None,
            },
    ;
}

/// The bytes that a record is stored as.
pub open spec fn encoding<T: Record>(v: T::V) -> Seq<u8> {
    frame(T::fields_of(v))
}

/// The record that stored bytes spell out, if they spell one.
pub open spec fn decoding<T: Record>(bytes: Seq<u8>) -> Option<T::V> {
    match unframe(bytes) {
        Some(fields) => T::from_fields(fields),
        None => None,
    }
}

/// The record is short enough to be stored.
pub open spec fn fits<T: Record>(v: T::V) -> bool {
    encoding::<T>(v).len() <= MAX_RECORD_SIZE
}

/// Decoding the encoding of a record that fits gives back the record.
pub proof fn lemma_decode_encode<T: Record>(v: T::V)
    requires
        fits::<T>(v),
    ensures
        decoding::<T>(encoding::<T>(v)) == Some(v),
{
    let fields = T::fields_of(v);
    lemma_frame_len(fields);
    assert forall|i: int| 0 <= i < fields.len() implies (#[trigger] fields[i]).len()
        <= u32::MAX by {
        lemma_frame_size_covers(fields, i);
    }
    lemma_unframe_frame(fields);
    T::lemma_fields_round_trip(v);
}

/// Encodes a record and measures the result: a record that does not fit is
/// refused.
pub fn encode<T: Record>(record: &T) -> (bytes: Result<Vec<u8>, Error>)
    ensures
        match bytes {
            Ok(b) => fits::<T>(record@) && b@ == encoding::<T>(record@),
            Err(e) => !fits::<T>(record@) && e == Error::EncodingOverflow,
        },
{
    proof {
        lemma_frame_len(T::fields_of(record@));
    }
    match record.to_fields() {
        Some(fields) => match write_frame(&fields, MAX_RECORD_SIZE) {
            Some(bytes) => Ok(bytes),
            None => Err(Error::EncodingOverflow),
        },
        None => Err(Error::EncodingOverflow),
    }
}

/// Decodes stored bytes.
pub fn decode<T: Record>(bytes: &[u8]) -> (record: Option<T>)
    ensures
        match record {
            Some(r) => decoding::<T>(bytes@) == Some(r@),
            None => decoding::<T>(bytes@) is None,
        },
{
    match read_frame(bytes) {
        Some(fields) => T::of_fields(&fields),
        None => None,
    }
}

} // verus!
