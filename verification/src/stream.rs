//! A loaded Marshal stream, kept together with the bytes it was loaded
//! from, and the reads that a `Scripts` file needs from it.
use vstd::prelude::*;
use crate::json::marshal_loads;

verus! {

#[verifier::external_type_specification]
#[verifier::external_body]
pub struct ExArena<'a>(marshal_rs::Arena<'a>);

/// The value tree of a Marshal stream, with the bytes it was loaded from.
/// Only `load_stream` makes one, so `source` is always those bytes.
pub struct LoadedStream<'a> {
    arena: marshal_rs::Arena<'a>,
    source: Ghost<Seq<u8>>,
}

impl<'a> LoadedStream<'a> {
    /// The bytes the stream was loaded from.
    pub closed spec fn source(&self) -> Seq<u8> {
        self.source@
    }
}

/// `ValueRef::len` of the root of the stream `bytes`: the number of
/// elements of an array (of entries of a hash, of members of an object or
/// struct), `0` for any other value.
pub uninterp spec fn marshal_root_len(bytes: Seq<u8>) -> nat;

/// `ValueRef::as_i64` of element `j` of element `i` of the root of the
/// stream `bytes`: `None` where either is not an array holding that index,
/// or the value is not an integer that fits in an `i64`.
pub uninterp spec fn marshal_item_int(bytes: Seq<u8>, i: int, j: int) -> Option<i64>;

/// `ValueRef::as_bytes` of element `j` of element `i` of the root of the
/// stream `bytes`: `None` where either is not an array holding that index,
/// or the value is not a string.
pub uninterp spec fn marshal_item_bytes(bytes: Seq<u8>, i: int, j: int) -> Option<Seq<u8>>;

/// `marshal_rs::load`. Claimed: it succeeds exactly on the streams that
/// `marshal_loads` accepts, and the stream it gives remembers `bytes`.
#[verifier::external_body]
pub fn load_stream(bytes: &[u8]) -> (r: Result<LoadedStream<'_>, marshal_rs::ReadError>)
    ensures
        r is Ok <==> marshal_loads(bytes@),
        r is Ok ==> r->Ok_0.source() == bytes@,
{
    match marshal_rs::load(bytes) {
        Ok(arena) => Ok(LoadedStream { arena, source: Ghost(bytes@) }),
        Err(e) => Err(e),
    }
}

/// `ValueRef::root` and `ValueRef::len`. Claimed: the length is
/// `marshal_root_len` of the stream's bytes.
#[verifier::external_body]
pub fn root_len(s: &LoadedStream<'_>) -> (r: usize)
    ensures
        r == marshal_root_len(s.source()),
{
    marshal_rs::ValueRef::root(&s.arena).len()
}

/// `ValueRef::root`, `ValueRef::at` twice and `ValueRef::as_i64`. Claimed:
/// the result is `marshal_item_int` of the stream's bytes.
#[verifier::external_body]
pub fn item_int(s: &LoadedStream<'_>, i: usize, j: usize) -> (r: Option<i64>)
    ensures
        r == marshal_item_int(s.source(), i as int, j as int),
{
    match marshal_rs::ValueRef::root(&s.arena).at(i) {
        Some(item) => match item.at(j) {
            Some(v) => v.as_i64(),
            None => None,
        },
        None => None,
    }
}

/// `ValueRef::root`, `ValueRef::at` twice and `ValueRef::as_bytes`, copied.
/// Claimed: the result is `marshal_item_bytes` of the stream's bytes.
#[verifier::external_body]
pub fn item_bytes(s: &LoadedStream<'_>, i: usize, j: usize) -> (r: Option<Vec<u8>>)
    ensures
        r is Some <==> marshal_item_bytes(s.source(), i as int, j as int) is Some,
        r is Some ==> marshal_item_bytes(s.source(), i as int, j as int) == Some(r->0@),
{
    match marshal_rs::ValueRef::root(&s.arena).at(i) {
        Some(item) => match item.at(j) {
            Some(v) => match v.as_bytes() {
                Some(b) => Some(b.to_vec()),
                None => None,
            },
            None => None,
        },
        None => None,
    }
}

} // verus!
