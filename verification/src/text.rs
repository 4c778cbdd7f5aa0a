//! Decoding of the C strings that the engine hands back (device names,
//! network and input names) into Rust strings.
use vstd::prelude::*;
use vstd::utf8::{decode_utf8, valid_utf8};
use std::str::Utf8Error;

verus! {

#[verifier::external_type_specification]
#[verifier::external_body]
pub struct ExUtf8Error(Utf8Error);

/// `k` is the length of the longest prefix of `bytes` that is valid UTF-8.
pub open spec fn is_longest_valid_prefix(bytes: Seq<u8>, k: int) -> bool {
    &&& 0 <= k <= bytes.len()
    &&& valid_utf8(bytes.take(k))
    &&& forall|j: int| k < j <= bytes.len() ==> !valid_utf8(#[trigger] bytes.take(j))
}

/// What `Utf8Error::valid_up_to` returns for an error.
pub uninterp spec fn utf8_error_valid_up_to(e: Utf8Error) -> usize;

/// `std::str::from_utf8`: as its documentation states, it succeeds exactly
/// when the bytes are valid UTF-8, and then gives the string they encode;
/// on failure, the error's `valid_up_to` is the largest length of a prefix
/// that would decode. What else the error holds (its `error_len`) is left
/// unsaid.
#[verifier::external_body]
fn str_from_utf8(bytes: &[u8]) -> (r: Result<&str, Utf8Error>)
    ensures
        r is Ok <==> valid_utf8(bytes@),
        r matches Ok(s) ==> s@ == decode_utf8(bytes@),
        r matches Err(e) ==> is_longest_valid_prefix(bytes@, utf8_error_valid_up_to(e) as int),
{
    std::str::from_utf8(bytes)
}

/// `Utf8Error::valid_up_to`: the length of the valid prefix that the error
/// records.
#[verifier::external_body]
fn utf8_valid_up_to(e: &Utf8Error) -> (r: usize)
    ensures
        r == utf8_error_valid_up_to(*e),
{
    e.valid_up_to()
}

/// Every byte string of `raw` is valid UTF-8.
pub open spec fn all_valid_utf8(raw: Seq<Vec<u8>>) -> bool {
    forall|i: int| 0 <= i < raw.len() ==> valid_utf8(#[trigger] raw[i]@)
}

/// Why a list of C strings could not be decoded: the position of the
/// first one that is not valid UTF-8, the length of its longest valid
/// prefix, and the error that decoding it gave.
#[derive(Debug)]
pub struct DecodeError {
    pub index: usize,
    pub valid_up_to: usize,
    pub error: Utf8Error,
}

/// Decodes the bytes of each C string, without its terminator, into a
/// string; stops at the first one that is not valid UTF-8.
pub fn decode_c_strings(raw: &Vec<Vec<u8>>) -> (r: Result<Vec<String>, DecodeError>)
    ensures
        r is Ok <==> all_valid_utf8(raw@),
        r matches Ok(v) ==> v@.len() == raw@.len()
            && forall|i: int| 0 <= i < raw@.len() ==> #[trigger] v@[i]@ == decode_utf8(raw@[i]@),
        r matches Err(e) ==> e.index < raw@.len() && !valid_utf8(raw@[e.index as int]@)
            && (forall|i: int| 0 <= i < e.index ==> valid_utf8(#[trigger] raw@[i]@))
            && e.valid_up_to == utf8_error_valid_up_to(e.error)
            && is_longest_valid_prefix(raw@[e.index as int]@, e.valid_up_to as int),
{
    let n = raw.len();
    let mut out: Vec<String> = Vec::new();
    let mut i: usize = 0;
    while i < n
        invariant
            n == raw@.len(),
            i <= n,
            out@.len() == i,
            forall|k: int| 0 <= k < i ==> valid_utf8(#[trigger] raw@[k]@),
            forall|k: int| 0 <= k < i ==> #[trigger] out@[k]@ == decode_utf8(raw@[k]@),
        decreases n - i,
    {
        match str_from_utf8(raw[i].as_slice()) {
            Ok(s) => {
                out.push(String::from_str(s));
            },
            Err(error) => {
                let valid_up_to = utf8_valid_up_to(&error);
                return Err(DecodeError { index: i, valid_up_to, error });
            },
        }
        i = i + 1;
    }
    Ok(out)
}

} // verus!
