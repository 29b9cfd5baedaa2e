//! A complete response, head and body together.

use crate::http::ResponseHead;
use std::string::FromUtf8Error;
use vstd::prelude::*;
use vstd::utf8::{encode_utf8, valid_utf8};

verus! {

#[verifier::external_type_specification]
#[verifier::external_body]
pub struct ExFromUtf8Error(FromUtf8Error);

/// Relies on `String::from_utf8`: `Ok` exactly when the bytes are valid
/// UTF-8, and then the string is made of those bytes.
#[verifier::external_body]
fn string_from_utf8(v: Vec<u8>) -> (r: Result<String, FromUtf8Error>)
    ensures
        r is Ok <==> valid_utf8(v@),
        r is Ok ==> encode_utf8(r->Ok_0@) == v@,
{
    String::from_utf8(v)
}

/// A response: its head and its body (the whole body, or a reader of it).
#[derive(Clone, Debug)]
pub struct SimpleResponse<B> {
    pub head: ResponseHead,
    pub body: B,
}

impl SimpleResponse<Vec<u8>> {
    /// The body as a string; an error when it is not valid UTF-8. Other
    /// text encodings are not handled.
    pub fn into_string(self) -> (r: Result<String, FromUtf8Error>)
        ensures
            r is Ok <==> valid_utf8(self.body@),
            r is Ok ==> encode_utf8(r->Ok_0@) == self.body@,
    {
        string_from_utf8(self.body)
    }
}

} // verus!
