//! The ids of sessions: universally unique identifiers.

use vstd::prelude::*;

use crate::text;

verus! {

/// The number that the bytes stand for, the most significant first.
pub open spec fn be_value(bytes: Seq<u8>) -> nat
    decreases bytes.len(),
{
    if bytes.len() == 0 {
        0
    } else {
        be_value(bytes.drop_last()) * 256 + bytes.last() as nat
    }
}

/// The id that bytes stand for, or what is wrong with them in words: an id has
/// sixteen bytes.
pub open spec fn id_of_bytes(bytes: Seq<u8>) -> Result<u128, Seq<char>> {
    if bytes.len() == 16 {
        Ok(be_value(bytes) as u128)
    } else {
        Err("invalid length: expected 16 bytes, found "@ + text::decimal(bytes.len()))
    }
}

/// Reads an id with `uuid::Uuid::from_slice`, which takes sixteen bytes and nothing
/// else, and gives its value by `as_u128`: that of the bytes, the most significant
/// first. The error is given by its text, which names the length.
#[verifier::external_body]
pub(crate) fn uuid_from_slice(bytes: &[u8]) -> (r: Result<u128, String>)
    ensures
        match r {
            Ok(sid) => bytes@.len() == 16 && sid == be_value(bytes@),
            Err(e) => bytes@.len() != 16 && e@ == "invalid length: expected 16 bytes, found "@
                + text::decimal(bytes@.len()),
        },
{
    uuid::Uuid::from_slice(bytes).map(|u| u.as_u128()).map_err(|e| e.to_string())
}

/// The bytes of an id by `uuid::Uuid::into_bytes`: the sixteen that stand for its
/// value, the most significant first.
#[verifier::external_body]
pub(crate) fn uuid_into_bytes(sid: u128) -> (r: Vec<u8>)
    ensures
        r@.len() == 16,
        be_value(r@) == sid,
{
    uuid::Uuid::from_u128(sid).into_bytes().to_vec()
}

/// Whether an id is marked as a random one: version 4 of the standard variant.
pub open spec fn is_random_id(sid: u128) -> bool {
    &&& (sid / 0x1000_0000_0000_0000_0000) % 16 == 4
    &&& (sid / 0x4000_0000_0000_0000) % 4 == 2
}

/// A new id by `uuid::Uuid::new_v4`. It is drawn at random, so nothing but its marks
/// is known of it.
#[verifier::external_body]
pub(crate) fn uuid_new_v4() -> (r: u128)
    ensures
        is_random_id(r),
{
    uuid::Uuid::new_v4().as_u128()
}

/// Reads an id from its bytes.
pub fn id_from_bytes(bytes: &[u8]) -> (r: Result<u128, String>)
    ensures
        match r {
            Ok(sid) => id_of_bytes(bytes@) == Ok::<u128, Seq<char>>(sid),
            Err(e) => id_of_bytes(bytes@) == Err::<u128, Seq<char>>(e@),
        },
{
    uuid_from_slice(bytes)
}

/// Whether `bytes` are the bytes of the id `sid`.
pub open spec fn are_bytes_of(bytes: Seq<u8>, sid: u128) -> bool {
    bytes.len() == 16 && be_value(bytes) == sid
}

/// The bytes of an id.
pub fn id_to_bytes(sid: u128) -> (r: Vec<u8>)
    ensures
        are_bytes_of(r@, sid),
        id_of_bytes(r@) == Ok::<u128, Seq<char>>(sid),
{
    uuid_into_bytes(sid)
}

proof fn lemma_be_value_injective(a: Seq<u8>, b: Seq<u8>)
    requires
        a.len() == b.len(),
        be_value(a) == be_value(b),
    ensures
        a == b,
    decreases a.len(),
{
    if a.len() > 0 {
        assert(be_value(a) % 256 == a.last() as nat);
        assert(be_value(b) % 256 == b.last() as nat);
        lemma_be_value_injective(a.drop_last(), b.drop_last());
        assert(a =~= a.drop_last().push(a.last()));
        assert(b =~= b.drop_last().push(b.last()));
    } else {
        assert(a =~= b);
    }
}

/// An id has only one form in bytes, from which it is read back.
pub proof fn id_reads_back(a: Seq<u8>, b: Seq<u8>, sid: u128)
    requires
        are_bytes_of(a, sid),
        are_bytes_of(b, sid),
    ensures
        a == b,
        id_of_bytes(a) == Ok::<u128, Seq<char>>(sid),
{
    lemma_be_value_injective(a, b);
}

proof fn lemma_be_value_bound(bytes: Seq<u8>)
    ensures
        be_value(bytes) < vstd::arithmetic::power::pow(256, bytes.len()),
    decreases bytes.len(),
{
    reveal(vstd::arithmetic::power::pow);
    if bytes.len() > 0 {
        lemma_be_value_bound(bytes.drop_last());
    }
}

/// The first byte is the most significant one.
pub proof fn first_byte_is_most_significant(first: u8, rest: Seq<u8>)
    ensures
        be_value(seq![first] + rest) == first * vstd::arithmetic::power::pow(256, rest.len())
            + be_value(rest),
    decreases rest.len(),
{
    let all = seq![first] + rest;
    reveal(vstd::arithmetic::power::pow);
    if rest.len() == 0 {
        assert(all.drop_last() =~= Seq::<u8>::empty());
        assert(be_value(all.drop_last()) == 0);
        assert(vstd::arithmetic::power::pow(256, rest.len()) == 1);
    } else {
        let front = rest.drop_last();
        first_byte_is_most_significant(first, front);
        assert(all.drop_last() =~= seq![first] + front);
        assert(all.last() == rest.last());
        let p = vstd::arithmetic::power::pow(256, front.len());
        assert(vstd::arithmetic::power::pow(256, rest.len()) == 256 * p);
        assert((first * p + be_value(front)) * 256 == first * (256 * p) + be_value(front) * 256)
            by (nonlinear_arith);
    }
}

/// Sixteen bytes are an id, whatever they are, and no two ids share their bytes. Bytes of
/// another number are none, and the answer names that number.
pub proof fn sixteen_bytes_are_an_id(bytes: Seq<u8>)
    ensures
        id_of_bytes(bytes) is Ok <==> bytes.len() == 16,
        id_of_bytes(bytes) matches Ok(sid) ==> are_bytes_of(bytes, sid),
        id_of_bytes(bytes) matches Err(e) ==> e == "invalid length: expected 16 bytes, found "@
            + text::decimal(bytes.len()),
{
    if bytes.len() == 16 {
        lemma_be_value_bound(bytes);
        reveal_with_fuel(vstd::arithmetic::power::pow, 17);
        assert(vstd::arithmetic::power::pow(256, 16) == 0x1_0000_0000_0000_0000_0000_0000_0000_0000);
    }
}

} // verus!
