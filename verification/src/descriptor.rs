//! ABI-stable runtime descriptors: the owned-string descriptor, the
//! null-terminated string descriptor, and the tagged optional and fallible
//! result carriers, together with the value-level lowering rules that move
//! owned values into and out of them.
//!
//! Ownership rule: constructing a descriptor from an owned value transfers
//! ownership into the descriptor; taking the value back out transfers it out
//! exactly once. No descriptor is ever owned by two sides at the same time.

use vstd::prelude::*;
use vstd::string::StrSliceExecFns;
use vstd::utf8::{
    decode_utf8, encode_utf8, encode_utf8_decode_utf8, encode_utf8_valid_utf8, valid_utf8,
};

verus! {

/// Owned-string descriptor: carries the bytes of a string (not necessarily
/// null-terminated) together with their owning allocation across the boundary.
/// The view is the owned byte sequence.
pub struct FinchString {
    bytes: Vec<u8>,
}

impl View for FinchString {
    type V = Seq<u8>;

    closed spec fn view(&self) -> Seq<u8> {
        self.bytes@
    }
}

/// Relies on `String::from_utf8` from std: it succeeds exactly when the input
/// is valid UTF-8, and the returned string is represented by exactly the
/// given bytes.
#[verifier::external_body]
fn string_from_utf8(bytes: Vec<u8>) -> (r: Option<String>)
    ensures
        r is Some <==> valid_utf8(bytes@),
        r matches Some(s) ==> encode_utf8(s@) == bytes@,
{
    String::from_utf8(bytes).ok()
}

impl FinchString {
    /// Byte-buffer constructor: takes ownership of the given bytes.
    /// Interior null bytes are preserved unchanged.
    pub fn new(data: Vec<u8>) -> (r: FinchString)
        ensures
            r@ == data@,
    {
        FinchString { bytes: data }
    }

    /// Lowers an owned string: the descriptor takes ownership of the string's
    /// UTF-8 bytes.
    pub fn from_string(s: &String) -> (r: FinchString)
        ensures
            r@ == encode_utf8(s@),
    {
        FinchString { bytes: s.as_str().as_bytes_vec() }
    }

    /// Byte length of the carried string.
    pub fn len(&self) -> (n: usize)
        ensures
            n == self@.len(),
    {
        self.bytes.len()
    }

    /// Un-lowering, byte-buffer variant: hands the owned bytes back to the
    /// caller, releasing the descriptor.
    pub fn into_bytes(self) -> (r: Vec<u8>)
        ensures
            r@ == self@,
    {
        self.bytes
    }

    /// Un-lowering to an owned string: succeeds exactly when the carried
    /// bytes are valid UTF-8, which always holds for a descriptor built by
    /// `from_string`.
    pub fn into_string(self) -> (r: Option<String>)
        ensures
            r is Some <==> valid_utf8(self@),
            r matches Some(s) ==> s@ == decode_utf8(self@),
    {
        let r = string_from_utf8(self.bytes);
        proof {
            if r is Some {
                let s = r->Some_0;
                encode_utf8_decode_utf8(s@);
            }
        }
        r
    }
}

/// Lowering an owned string into the descriptor and un-lowering it yields the
/// original character sequence, and the un-lowering step cannot fail because
/// the lowered bytes are always valid UTF-8.
pub proof fn lemma_owned_string_round_trip(s: Seq<char>)
    ensures
        valid_utf8(encode_utf8(s)),
        decode_utf8(encode_utf8(s)) == s,
{
    encode_utf8_valid_utf8(s);
    encode_utf8_decode_utf8(s);
}

/// Null-terminated string descriptor: owns the bytes of a string that holds
/// no interior null byte, so that it can cross the boundary with a null
/// terminator. The view is the byte sequence without the terminator.
pub struct FinchCString {
    bytes: Vec<u8>,
}

impl View for FinchCString {
    type V = Seq<u8>;

    closed spec fn view(&self) -> Seq<u8> {
        self.bytes@
    }
}

impl FinchCString {
    /// Lowers owned bytes into a null-terminated descriptor. Fails exactly
    /// when the data holds an interior null byte, which a null-terminated
    /// string cannot carry.
    pub fn from_bytes(data: Vec<u8>) -> (r: Option<FinchCString>)
        ensures
            r is Some <==> (forall|i: int| 0 <= i < data@.len() ==> data@[i] != 0),
            r matches Some(c) ==> c@ == data@,
    {
        let mut i: usize = 0;
        while i < data.len()
            invariant
                0 <= i <= data@.len(),
                forall|k: int| 0 <= k < i ==> data@[k] != 0,
            decreases data@.len() - i,
        {
            if data[i] == 0 {
                return None;
            }
            i += 1;
        }
        Some(FinchCString { bytes: data })
    }

    /// Byte length of the carried string, terminator excluded.
    pub fn len(&self) -> (n: usize)
        ensures
            n == self@.len(),
    {
        self.bytes.len()
    }

    /// Hands the owned bytes back to the caller, releasing the descriptor.
    pub fn into_bytes(self) -> (r: Vec<u8>)
        ensures
            r@ == self@,
    {
        self.bytes
    }
}

/// Tagged optional descriptor: an enum-like two-variant layout. `Present` is
/// the tag that carries a payload; `Absent` is the tag for a missing value.
pub enum FinchOption<T> {
    Present(T),
    Absent,
}

/// Tagged fallible-result descriptor: `Success` carries the lowered success
/// payload; `Failure` carries the textual rendering of the error as an owned
/// string. Structured error detail is deliberately discarded at the boundary.
pub enum FinchResult<T> {
    Success(T),
    Failure(FinchString),
}

/// Value-level lowering of an optional value into the tagged descriptor.
pub open spec fn spec_lower_optional<T>(v: Option<T>) -> FinchOption<T> {
    match v {
        Some(x) => FinchOption::Present(x),
        None => FinchOption::Absent,
    }
}

/// Value-level un-lowering of the tagged descriptor back to an optional value.
pub open spec fn spec_unlower_optional<T>(d: FinchOption<T>) -> Option<T> {
    match d {
        FinchOption::Present(x) => Some(x),
        FinchOption::Absent => None,
    }
}

/// Lowers an optional value: a missing value becomes the `Absent` tag, a
/// present value becomes the `Present` tag carrying the payload unchanged.
/// The payload is lowered separately when its type requires it.
pub fn lower_optional<T>(v: Option<T>) -> (r: FinchOption<T>)
    ensures
        r == spec_lower_optional(v),
{
    match v {
        Some(x) => FinchOption::Present(x),
        None => FinchOption::Absent,
    }
}

/// Un-lowers the tagged descriptor: the `Absent` tag becomes a missing value,
/// the `Present` tag hands its payload back unchanged.
pub fn unlower_optional<T>(d: FinchOption<T>) -> (v: Option<T>)
    ensures
        v == spec_unlower_optional(d),
{
    match d {
        FinchOption::Present(x) => Some(x),
        FinchOption::Absent => None,
    }
}

/// Lowering an optional value and un-lowering it yields the original value:
/// a missing value comes back absent, and a present payload is recovered
/// exactly, whatever its type.
pub proof fn lemma_optional_round_trip<T>(v: Option<T>)
    ensures
        spec_unlower_optional(spec_lower_optional(v)) == v,
{
}

/// The inverse direction: un-lowering a tagged optional descriptor and
/// lowering the result reproduces the descriptor, so no information is lost
/// in either direction.
pub proof fn lemma_optional_descriptor_round_trip<T>(d: FinchOption<T>)
    ensures
        spec_lower_optional(spec_unlower_optional(d)) == d,
{
}

/// Lowers a fallible result whose error has already been rendered to text: a
/// success becomes the `Success` tag carrying the payload unchanged, an error
/// becomes the `Failure` tag carrying only the rendering as an owned string.
pub fn lower_fallible<T>(v: Result<T, String>) -> (r: FinchResult<T>)
    ensures
        v matches Ok(x) ==> r == FinchResult::Success(x),
        v matches Err(m) ==> r matches FinchResult::Failure(f) && f@ == encode_utf8(m@),
{
    match v {
        Ok(x) => FinchResult::Success(x),
        Err(m) => FinchResult::Failure(FinchString::from_string(&m)),
    }
}

/// Lowers a fallible result whose success payload is itself an owned string,
/// so both payloads cross the boundary as string descriptors.
pub fn lower_fallible_string(v: Result<String, String>) -> (r: FinchResult<FinchString>)
    ensures
        v matches Ok(x) ==> r matches FinchResult::Success(f) && f@ == encode_utf8(x@),
        v matches Err(m) ==> r matches FinchResult::Failure(f) && f@ == encode_utf8(m@),
{
    match v {
        Ok(x) => FinchResult::Success(FinchString::from_string(&x)),
        Err(m) => FinchResult::Failure(FinchString::from_string(&m)),
    }
}

/// Lowers an optional owned string: the payload itself is lowered into a
/// string descriptor, so the whole value crosses as a tagged descriptor of a
/// descriptor.
pub fn lower_optional_string(v: Option<String>) -> (r: FinchOption<FinchString>)
    ensures
        v is None ==> r is Absent,
        v matches Some(x) ==> r matches FinchOption::Present(f) && f@ == encode_utf8(x@),
{
    match v {
        Some(x) => FinchOption::Present(FinchString::from_string(&x)),
        None => FinchOption::Absent,
    }
}

/// Un-lowers an optional owned string: the `Absent` tag becomes a missing
/// value; a present payload is decoded back to the original string, which
/// cannot fail when the payload was lowered from one.
pub fn unlower_optional_string(d: FinchOption<FinchString>) -> (v: Option<Option<String>>)
    ensures
        d is Absent ==> (v matches Some(o) && o is None),
        (d is Present && valid_utf8(d->Present_0@)) ==> (v matches Some(o) && o matches Some(s)
            && s@ == decode_utf8(d->Present_0@)),
        (d is Present && !valid_utf8(d->Present_0@)) ==> v is None,
{
    match d {
        FinchOption::Present(f) => match f.into_string() {
            Some(s) => Some(Some(s)),
            None => None,
        },
        FinchOption::Absent => Some(None),
    }
}

} // verus!
