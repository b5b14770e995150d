//! The byte layout of a stored record.
//!
//! A record is a frame: a run of fields, each written as its length in four
//! little-endian bytes followed by its bytes. A field holds an integer, a flag,
//! a text in UTF-8, a list of identities, or a frame of its own. Reading back
//! what was written gives the same fields, which this module proves.

use crate::text::string_from_utf8;
use vstd::bytes::*;
use vstd::prelude::*;
use vstd::slice::*;
use vstd::string::*;
use vstd::utf8::*;

verus! {

/// A field as it stands in a frame: four bytes of length, then the payload.
pub open spec fn field(payload: Seq<u8>) -> Seq<u8> {
    spec_u32_to_le_bytes(payload.len() as u32) + payload
}

/// The fields written one after the other.
pub open spec fn frame(fields: Seq<Seq<u8>>) -> Seq<u8>
    decreases fields.len(),
{
    if fields.len() == 0 {
        Seq::empty()
    } else {
        frame(fields.drop_last()) + field(fields.last())
    }
}

/// The fields that the bytes spell out, if they are a frame: the bytes must be
/// used up exactly.
pub open spec fn unframe(bytes: Seq<u8>) -> Option<Seq<Seq<u8>>>
    decreases bytes.len(),
{
    if bytes.len() == 0 {
        Some(Seq::empty())
    } else if bytes.len() < 4 {
        None
    } else {
        let n = spec_u32_from_le_bytes(bytes.subrange(0, 4)) as int;
        if bytes.len() - 4 < n {
            None
        } else {
            match unframe(bytes.subrange(4 + n, bytes.len() as int)) {
                Some(rest) => Some(seq![bytes.subrange(4, 4 + n)] + rest),
                None => None,
            }
        }
    }
}

/// The size of a frame: four bytes and the payload for each field.
pub open spec fn frame_size(fields: Seq<Seq<u8>>) -> nat
    decreases fields.len(),
{
    if fields.len() == 0 {
        0
    } else {
        frame_size(fields.drop_last()) + 4 + fields.last().len()
    }
}

/// Every field is short enough for its length to fit the four-byte prefix.
pub open spec fn fields_fit(fields: Seq<Seq<u8>>) -> bool {
    forall|i: int| 0 <= i < fields.len() ==> (#[trigger] fields[i]).len() <= u32::MAX
}

/// A field is four bytes longer than its payload.
pub proof fn lemma_field_len(payload: Seq<u8>)
    ensures
        field(payload).len() == 4 + payload.len(),
{
    lemma_auto_spec_u32_to_from_le_bytes();
}

/// A frame has the size that its fields add up to.
pub proof fn lemma_frame_len(fields: Seq<Seq<u8>>)
    ensures
        frame(fields).len() == frame_size(fields),
    decreases fields.len(),
{
    if fields.len() > 0 {
        lemma_frame_len(fields.drop_last());
        lemma_field_len(fields.last());
    }
}

/// A frame is at least as long as any of its fields, prefix included.
pub proof fn lemma_frame_size_covers(fields: Seq<Seq<u8>>, i: int)
    requires
        0 <= i < fields.len(),
    ensures
        frame_size(fields) >= 4 + fields[i].len(),
    decreases fields.len(),
{
    if i < fields.len() - 1 {
        lemma_frame_size_covers(fields.drop_last(), i);
    }
}

/// A frame with one more field is the frame followed by that field.
pub proof fn lemma_frame_push(fields: Seq<Seq<u8>>, payload: Seq<u8>)
    ensures
        frame(fields.push(payload)) == frame(fields) + field(payload),
        frame_size(fields.push(payload)) == frame_size(fields) + 4 + payload.len(),
{
    assert(fields.push(payload).drop_last() =~= fields);
}

/// A frame is its first field followed by the frame of the others.
pub proof fn lemma_frame_prepend(payload: Seq<u8>, rest: Seq<Seq<u8>>)
    ensures
        frame(seq![payload] + rest) == field(payload) + frame(rest),
    decreases rest.len(),
{
    let all = seq![payload] + rest;
    if rest.len() == 0 {
        assert(all.drop_last() =~= Seq::<Seq<u8>>::empty());
        assert(frame(all.drop_last()) =~= Seq::<u8>::empty());
        assert(frame(all) =~= field(payload) + frame(rest));
    } else {
        lemma_frame_prepend(payload, rest.drop_last());
        assert(all.drop_last() =~= seq![payload] + rest.drop_last());
        assert(all.last() == rest.last());
        assert(frame(all) =~= field(payload) + frame(rest));
    }
}

/// Reading a frame gives back the fields it was written from.
pub proof fn lemma_unframe_frame(fields: Seq<Seq<u8>>)
    requires
        fields_fit(fields),
    ensures
        unframe(frame(fields)) == Some(fields),
    decreases fields.len(),
{
    if fields.len() > 0 {
        let first = fields[0];
        let rest = fields.drop_first();
        let bytes = frame(fields);
        assert(fields =~= seq![first] + rest);
        lemma_frame_prepend(first, rest);
        lemma_auto_spec_u32_to_from_le_bytes();
        let n = first.len() as int;
        assert(bytes.subrange(0, 4) =~= spec_u32_to_le_bytes(first.len() as u32));
        assert(bytes.subrange(4, 4 + n) =~= first);
        assert(bytes.subrange(4 + n, bytes.len() as int) =~= frame(rest));
        lemma_unframe_frame(rest);
    }
}

/// Writes one field at the end of a frame.
pub fn push_field(out: &mut Vec<u8>, payload: &[u8])
    requires
        payload@.len() <= u32::MAX,
    ensures
        final(out)@ == old(out)@ + field(payload@),
{
    let n: u32 = payload.len() as u32;
    let mut prefix = u32_to_le_bytes(n);
    let mut body = slice_to_vec(payload);
    out.append(&mut prefix);
    out.append(&mut body);
    assert(out@ =~= old(out)@ + field(payload@));
}

/// The payloads of the fields, as the contracts speak of them.
pub open spec fn payloads(fields: Vec<Vec<u8>>) -> Seq<Seq<u8>> {
    Seq::new(fields@.len(), |i: int| fields@[i]@)
}

/// What is read once `done` has been read and `rest` is still to be read.
pub open spec fn unframe_after(done: Seq<Seq<u8>>, rest: Seq<u8>) -> Option<Seq<Seq<u8>>> {
    match unframe(rest) {
        Some(more) => Some(done + more),
        None => None,
    }
}

/// Splits a frame into its fields, or finds that the bytes are no frame.
pub fn read_frame(bytes: &[u8]) -> (fields: Option<Vec<Vec<u8>>>)
    ensures
        match fields {
            Some(f) => unframe(bytes@) == Some(payloads(f)),
            None => unframe(bytes@) is None,
        },
{
    let mut fields: Vec<Vec<u8>> = Vec::new();
    let mut at: usize = 0;
    let len: usize = bytes.len();
    assert(bytes@.subrange(0, len as int) =~= bytes@);
    assert(payloads(fields) =~= Seq::<Seq<u8>>::empty());
    assert(Seq::<Seq<u8>>::empty() + unframe(bytes@)->0 =~= unframe(bytes@)->0);
    while at < len
        invariant
            at <= len,
            len == bytes@.len(),
            unframe(bytes@) == unframe_after(
                payloads(fields),
                bytes@.subrange(at as int, len as int),
            ),
        decreases len - at,
    {
        let ghost rest = bytes@.subrange(at as int, len as int);
        if len - at < 4 {
            return None;
        }
        let n: usize = u32_from_le_bytes(slice_subrange(bytes, at, at + 4)) as usize;
        assert(bytes@.subrange(at as int, at + 4) =~= rest.subrange(0, 4));
        if len - at - 4 < n {
            return None;
        }
        let payload = slice_to_vec(slice_subrange(bytes, at + 4, at + 4 + n));
        proof {
            let next = bytes@.subrange(at + 4 + n, len as int);
            assert(payload@ =~= rest.subrange(4, 4 + n));
            assert(next =~= rest.subrange(4 + n, rest.len() as int));
            let done = payloads(fields);
            assert(payloads(fields).push(payload@) =~= done + seq![payload@]);
            if unframe(next) is Some {
                assert((done + seq![payload@]) + unframe(next)->0 =~= done + (seq![payload@]
                    + unframe(next)->0));
            }
        }
        let ghost before = payloads(fields);
        fields.push(payload);
        assert(payloads(fields) =~= before.push(payload@));
        at = at + 4 + n;
    }
    assert(bytes@.subrange(at as int, len as int) =~= Seq::<u8>::empty());
    assert(payloads(fields) + Seq::<Seq<u8>>::empty() =~= payloads(fields));
    Some(fields)
}

/// A list of identities as a payload: eight little-endian bytes each.
pub open spec fn ids_bytes(ids: Seq<u64>) -> Seq<u8>
    decreases ids.len(),
{
    if ids.len() == 0 {
        Seq::empty()
    } else {
        ids_bytes(ids.drop_last()) + spec_u64_to_le_bytes(ids.last())
    }
}

/// The identities that a payload spells out, if its length is a multiple of
/// eight.
pub open spec fn ids_of(bytes: Seq<u8>) -> Option<Seq<u64>> {
    if bytes.len() % 8 != 0 {
        None
    } else {
        Some(
            Seq::new(
                bytes.len() / 8,
                |i: int| spec_u64_from_le_bytes(bytes.subrange(8 * i, 8 * i + 8)),
            ),
        )
    }
}

/// A list of identities takes eight bytes for each.
pub proof fn lemma_ids_bytes_len(ids: Seq<u64>)
    ensures
        ids_bytes(ids).len() == 8 * ids.len(),
    decreases ids.len(),
{
    lemma_auto_spec_u64_to_from_le_bytes();
    if ids.len() > 0 {
        lemma_ids_bytes_len(ids.drop_last());
    }
}

/// The identity at a place of the list stands at eight times that place.
pub proof fn lemma_ids_bytes_at(ids: Seq<u64>, i: int)
    requires
        0 <= i < ids.len(),
    ensures
        8 * i + 8 <= ids_bytes(ids).len(),
        ids_bytes(ids).subrange(8 * i, 8 * i + 8) == spec_u64_to_le_bytes(ids[i]),
    decreases ids.len(),
{
    lemma_auto_spec_u64_to_from_le_bytes();
    lemma_ids_bytes_len(ids);
    lemma_ids_bytes_len(ids.drop_last());
    let front = ids_bytes(ids.drop_last());
    let back = spec_u64_to_le_bytes(ids.last());
    if i < ids.len() - 1 {
        lemma_ids_bytes_at(ids.drop_last(), i);
        assert((front + back).subrange(8 * i, 8 * i + 8) =~= front.subrange(8 * i, 8 * i + 8));
    } else {
        assert((front + back).subrange(8 * i, 8 * i + 8) =~= back);
    }
}

/// Reading a list of identities gives back the list it was written from.
pub proof fn lemma_ids_round_trip(ids: Seq<u64>)
    ensures
        ids_of(ids_bytes(ids)) == Some(ids),
{
    lemma_auto_spec_u64_to_from_le_bytes();
    lemma_ids_bytes_len(ids);
    let bytes = ids_bytes(ids);
    assert(bytes.len() % 8 == 0);
    assert(bytes.len() / 8 == ids.len());
    assert forall|i: int| 0 <= i < ids.len() implies spec_u64_from_le_bytes(
        #[trigger] bytes.subrange(8 * i, 8 * i + 8),
    ) == ids[i] by {
        lemma_ids_bytes_at(ids, i);
    }
    assert(ids_of(bytes)->0 =~= ids);
}

/// Writes a list of identities as a payload.
pub fn write_ids(ids: &Vec<u64>) -> (bytes: Vec<u8>)
    ensures
        bytes@ == ids_bytes(ids@),
{
    let mut bytes: Vec<u8> = Vec::new();
    let mut i: usize = 0;
    assert(ids@.take(0) =~= Seq::<u64>::empty());
    while i < ids.len()
        invariant
            i <= ids.len(),
            bytes@ == ids_bytes(ids@.take(i as int)),
        decreases ids.len() - i,
    {
        let mut next = u64_to_le_bytes(ids[i]);
        bytes.append(&mut next);
        assert(ids@.take(i + 1).drop_last() =~= ids@.take(i as int));
        i = i + 1;
    }
    assert(ids@.take(i as int) =~= ids@);
    bytes
}

/// Reads a list of identities from a payload.
pub fn read_ids(bytes: &[u8]) -> (ids: Option<Vec<u64>>)
    ensures
        match ids {
            Some(v) => ids_of(bytes@) == Some(v@),
            None => ids_of(bytes@) is None,
        },
{
    if bytes.len() % 8 != 0 {
        return None;
    }
    let len: usize = bytes.len();
    let count: usize = len / 8;
    let mut ids: Vec<u64> = Vec::new();
    let mut i: usize = 0;
    while i < count
        invariant
            i <= count,
            len == bytes@.len(),
            8 * count == len,
            ids@.len() == i,
            forall|j: int|
                0 <= j < i ==> ids@[j] == spec_u64_from_le_bytes(
                    #[trigger] bytes@.subrange(8 * j, 8 * j + 8),
                ),
        decreases count - i,
    {
        let id = u64_from_le_bytes(slice_subrange(bytes, 8 * i, 8 * i + 8));
        ids.push(id);
        i = i + 1;
    }
    assert(ids@ =~= ids_of(bytes@)->0);
    Some(ids)
}

/// The first fields of a frame are no longer than the frame.
pub proof fn lemma_frame_size_take(fields: Seq<Seq<u8>>, i: int)
    requires
        0 <= i <= fields.len(),
    ensures
        frame_size(fields.take(i)) <= frame_size(fields),
    decreases fields.len(),
{
    if i < fields.len() {
        lemma_frame_size_take(fields.drop_last(), i);
        assert(fields.drop_last().take(i) =~= fields.take(i));
    } else {
        assert(fields.take(i) =~= fields);
    }
}

/// Writes the fields as a frame, unless the frame would be longer than `limit`.
pub fn write_frame(fields: &Vec<Vec<u8>>, limit: usize) -> (bytes: Option<Vec<u8>>)
    requires
        limit <= u32::MAX,
    ensures
        match bytes {
            Some(b) => b@ == frame(payloads(*fields)) && b@.len() <= limit,
            None => frame_size(payloads(*fields)) > limit,
        },
{
    let mut out: Vec<u8> = Vec::new();
    let mut i: usize = 0;
    let ghost all = payloads(*fields);
    assert(all.take(0) =~= Seq::<Seq<u8>>::empty());
    while i < fields.len()
        invariant
            i <= fields.len(),
            limit <= u32::MAX,
            all == payloads(*fields),
            out@ == frame(all.take(i as int)),
            out@.len() == frame_size(all.take(i as int)),
            out@.len() <= limit,
        decreases fields.len() - i,
    {
        let payload = fields[i].as_slice();
        proof {
            assert(all.take(i + 1) =~= all.take(i as int).push(payload@));
            lemma_frame_push(all.take(i as int), payload@);
            lemma_frame_size_take(all, i + 1);
        }
        if limit - out.len() < 4 || payload.len() > limit - out.len() - 4 {
            return None;
        }
        proof {
            lemma_field_len(payload@);
        }
        push_field(&mut out, payload);
        i = i + 1;
    }
    assert(all.take(i as int) =~= all);
    Some(out)
}

/// An identity as a payload: eight little-endian bytes.
pub open spec fn u64_of(payload: Seq<u8>) -> Option<u64> {
    if payload.len() == 8 {
        Some(spec_u64_from_le_bytes(payload))
    } else {
        None
    }
}

/// An amount as a payload: four little-endian bytes.
pub open spec fn u32_of(payload: Seq<u8>) -> Option<u32> {
    if payload.len() == 4 {
        Some(spec_u32_from_le_bytes(payload))
    } else {
        None
    }
}

/// A flag as a payload: one byte, 1 for true and 0 for false.
pub open spec fn flag_bytes(flag: bool) -> Seq<u8> {
    seq![if flag { 1u8 } else { 0u8 }]
}

/// The flag that a payload spells out, if it is one byte and that byte 0 or 1.
pub open spec fn flag_of(payload: Seq<u8>) -> Option<bool> {
    if payload.len() == 1 && payload[0] <= 1 {
        Some(payload[0] == 1)
    } else {
        None
    }
}

/// A text as a payload: its UTF-8 encoding.
pub open spec fn text_of(payload: Seq<u8>) -> Option<Seq<char>> {
    if valid_utf8(payload) {
        Some(decode_utf8(payload))
    } else {
        None
    }
}

/// The texts of a list, as the contracts speak of them.
pub open spec fn texts_view(texts: Vec<String>) -> Seq<Seq<char>> {
    Seq::new(texts@.len(), |i: int| texts@[i]@)
}

/// A list of texts as fields: the UTF-8 encoding of each.
pub open spec fn texts_fields(texts: Seq<Seq<char>>) -> Seq<Seq<u8>> {
    Seq::new(texts.len(), |i: int| encode_utf8(texts[i]))
}

/// The texts that the fields spell out, if every field is well-formed UTF-8.
pub open spec fn texts_of_fields(fields: Seq<Seq<u8>>) -> Option<Seq<Seq<char>>> {
    if forall|i: int| 0 <= i < fields.len() ==> valid_utf8(#[trigger] fields[i]) {
        Some(Seq::new(fields.len(), |i: int| decode_utf8(fields[i])))
    } else {
        None
    }
}

/// The texts that a payload spells out, if it is a frame of texts.
pub open spec fn texts_of(payload: Seq<u8>) -> Option<Seq<Seq<char>>> {
    match unframe(payload) {
        Some(fields) => texts_of_fields(fields),
        None => None,
    }
}

/// Reading a list of texts gives back the list it was written from.
pub proof fn lemma_texts_round_trip(texts: Seq<Seq<char>>)
    requires
        fields_fit(texts_fields(texts)),
    ensures
        texts_of(frame(texts_fields(texts))) == Some(texts),
{
    broadcast use encode_utf8_valid_utf8, encode_utf8_decode_utf8;

    let fields = texts_fields(texts);
    lemma_unframe_frame(fields);
    assert(texts_of_fields(fields)->0 =~= texts);
}

/// Reads an identity from a payload.
pub fn read_u64(payload: &[u8]) -> (value: Option<u64>)
    ensures
        value == u64_of(payload@),
{
    if payload.len() == 8 {
        Some(u64_from_le_bytes(payload))
    } else {
        None
    }
}

/// Reads an amount from a payload.
pub fn read_u32(payload: &[u8]) -> (value: Option<u32>)
    ensures
        value == u32_of(payload@),
{
    if payload.len() == 4 {
        Some(u32_from_le_bytes(payload))
    } else {
        None
    }
}

/// Writes a flag as a payload.
pub fn write_flag(flag: bool) -> (payload: Vec<u8>)
    ensures
        payload@ == flag_bytes(flag),
{
    let mut payload: Vec<u8> = Vec::new();
    payload.push(if flag { 1u8 } else { 0u8 });
    assert(payload@ =~= flag_bytes(flag));
    payload
}

/// Reads a flag from a payload.
pub fn read_flag(payload: &[u8]) -> (flag: Option<bool>)
    ensures
        flag == flag_of(payload@),
{
    if payload.len() == 1 && payload[0] <= 1 {
        Some(payload[0] == 1)
    } else {
        None
    }
}

/// Writes a text as a payload.
pub fn write_text(text: &String) -> (payload: Vec<u8>)
    ensures
        payload@ == encode_utf8(text@),
{
    text.as_str().as_bytes_vec()
}

/// Reads a text from a payload, if the payload is well-formed UTF-8.
pub fn read_text(payload: &[u8]) -> (text: Option<String>)
    ensures
        match text {
            Some(s) => text_of(payload@) == Some(s@),
            None => text_of(payload@) is None,
        },
{
    string_from_utf8(slice_to_vec(payload))
}

/// Writes each text of a list as a field.
pub fn write_texts(texts: &Vec<String>) -> (fields: Vec<Vec<u8>>)
    ensures
        payloads(fields) == texts_fields(texts_view(*texts)),
{
    let mut fields: Vec<Vec<u8>> = Vec::new();
    let mut i: usize = 0;
    while i < texts.len()
        invariant
            i <= texts.len(),
            fields@.len() == i,
            forall|j: int| 0 <= j < i ==> (#[trigger] fields@[j])@ == encode_utf8(texts@[j]@),
        decreases texts.len() - i,
    {
        let payload = write_text(&texts[i]);
        fields.push(payload);
        i = i + 1;
    }
    assert(payloads(fields) =~= texts_fields(texts_view(*texts)));
    fields
}

/// Reads a list of texts from its fields.
pub fn read_texts(fields: &Vec<Vec<u8>>) -> (texts: Option<Vec<String>>)
    ensures
        match texts {
            Some(t) => texts_of_fields(payloads(*fields)) == Some(texts_view(t)),
            None => texts_of_fields(payloads(*fields)) is None,
        },
{
    let mut texts: Vec<String> = Vec::new();
    let mut i: usize = 0;
    let ghost all = payloads(*fields);
    while i < fields.len()
        invariant
            i <= fields.len(),
            all == payloads(*fields),
            texts@.len() == i,
            forall|j: int| 0 <= j < i ==> valid_utf8(#[trigger] all[j]),
            forall|j: int| 0 <= j < i ==> (#[trigger] texts@[j])@ == decode_utf8(all[j]),
        decreases fields.len() - i,
    {
        match read_text(fields[i].as_slice()) {
            Some(text) => {
                texts.push(text);
            },
            None => {
                assert(!valid_utf8(all[i as int]));
                return None;
            },
        }
        i = i + 1;
    }
    assert(texts_view(texts) =~= texts_of_fields(all)->0);
    Some(texts)
}

} // verus!
