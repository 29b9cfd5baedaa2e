//! Reading a response head: `httparse` splits the status line and the
//! header lines; the library decides what they mean for the body.

use crate::http::{OwnedHeader, ResponseHead, Status};
use crate::util::{all_digits, decimal_value, parse_decimal, str_eq};
use vstd::prelude::*;

verus! {

/// What `httparse::Response::parse` reads from the start of a buffer:
/// `None` when it is malformed, `Some(None)` when the head is not complete
/// yet, otherwise the length of the head, the status code, the reason
/// phrase and the headers as (name, value) pairs.
pub uninterp spec fn head_parse_of(buf: Seq<u8>) -> Option<
    Option<(nat, u16, Seq<char>, Seq<(Seq<char>, Seq<u8>)>)>,
>;

/// What `String::from_utf8_lossy` makes of a byte string.
pub uninterp spec fn utf8_lossy_of(b: Seq<u8>) -> Seq<char>;

/// The outcome of reading a response head.
pub enum HeadParse {
    /// The bytes are not a response head.
    Invalid,
    /// The head is not complete yet.
    Partial,
    /// The head, `len` bytes long.
    Complete { len: usize, code: u16, reason: String, headers: Vec<(String, Vec<u8>)> },
}

/// The view of parsed headers.
pub open spec fn header_pairs(hs: Seq<(String, Vec<u8>)>) -> Seq<(Seq<char>, Seq<u8>)> {
    hs.map_values(|h: (String, Vec<u8>)| (h.0@, h.1@))
}

/// Relies on `httparse::Response::parse` with room for 1024 headers:
/// `Complete(n)` gives the length of the head within the buffer, with the
/// code and reason set.
#[verifier::external_body]
pub(crate) fn parse_head(buf: &[u8]) -> (r: HeadParse)
    ensures
        r is Invalid <==> head_parse_of(buf@) is None,
        r is Partial <==> head_parse_of(buf@) == Some(None::<(nat, u16, Seq<char>, Seq<(Seq<char>, Seq<u8>)>)>),
        r is Complete ==> head_parse_of(buf@) == Some(Some((r->len as nat, r->code, r->reason@, header_pairs(r->headers@)))),
        r is Complete ==> r->len <= buf@.len(),
{
    let mut headers = [httparse::EMPTY_HEADER; 1024];
    let mut head = httparse::Response::new(&mut headers);
    match head.parse(buf) {
        Err(_) => HeadParse::Invalid,
        Ok(httparse::Status::Partial) => HeadParse::Partial,
        Ok(httparse::Status::Complete(len)) => HeadParse::Complete {
            len,
            code: head.code.unwrap_or_default(),
            reason: head.reason.unwrap_or_default().to_string(),
            headers: head.headers.iter().map(|h| (h.name.to_string(), h.value.to_vec())).collect(),
        },
    }
}

/// Relies on `String::from_utf8_lossy`, turned into an owned string.
#[verifier::external_body]
fn lossy_string(b: &[u8]) -> (r: String)
    ensures
        r@ == utf8_lossy_of(b@),
{
    String::from_utf8_lossy(b).to_string()
}

/// The value of the first header with this name.
pub open spec fn first_value(hs: Seq<(Seq<char>, Seq<u8>)>, name: Seq<char>) -> Option<Seq<u8>>
    decreases hs.len(),
{
    if hs.len() == 0 {
        None
    } else if hs[0].0 == name {
        Some(hs[0].1)
    } else {
        first_value(hs.drop_first(), name)
    }
}

/// The advertised body length: `Some(0)` without a `Content-Length`
/// header, `None` when its value is not a decimal number that fits.
pub open spec fn content_length_of(hs: Seq<(Seq<char>, Seq<u8>)>) -> Option<usize> {
    match first_value(hs, "Content-Length"@) {
        None => Some(0),
        Some(v) => if v.len() > 0 && all_digits(v) && decimal_value(v) <= usize::MAX {
            Some(decimal_value(v) as usize)
        } else {
            None
        },
    }
}

/// Some `Transfer-Encoding` header says `chunked`.
pub open spec fn is_chunked(hs: Seq<(Seq<char>, Seq<u8>)>) -> bool {
    exists|i: int|
        0 <= i < hs.len() && (#[trigger] hs[i]).0 == "Transfer-Encoding"@ && hs[i].1
            == vstd::utf8::encode_utf8("chunked"@)
}

/// Some `Transfer-Encoding` header names a coding other than `chunked` and
/// `identity`.
pub open spec fn has_unknown_coding(hs: Seq<(Seq<char>, Seq<u8>)>) -> bool {
    exists|i: int|
        0 <= i < hs.len() && (#[trigger] hs[i]).0 == "Transfer-Encoding"@ && hs[i].1
            != vstd::utf8::encode_utf8("chunked"@) && hs[i].1 != vstd::utf8::encode_utf8(
            "identity"@,
        )
}

/// The response head is acceptable: a readable `Content-Length`, and no
/// transfer coding but `chunked` and `identity`.
pub open spec fn head_acceptable(hs: Seq<(Seq<char>, Seq<u8>)>) -> bool {
    content_length_of(hs) is Some && !has_unknown_coding(hs)
}

fn bytes_eq(a: &[u8], b: &[u8]) -> (r: bool)
    ensures
        r == (a@ == b@),
{
    if a.len() != b.len() {
        return false;
    }
    let mut i: usize = 0;
    while i < a.len()
        invariant
            a@.len() == b@.len(),
            i <= a@.len(),
            forall|j: int| 0 <= j < i ==> a@[j] == b@[j],
        decreases a@.len() - i,
    {
        if a[i] != b[i] {
            return false;
        }
        i = i + 1;
    }
    assert(a@ =~= b@);
    true
}

fn find_value<'h>(hs: &'h Vec<(String, Vec<u8>)>, name: &str) -> (r: Option<&'h Vec<u8>>)
    ensures
        r is None <==> first_value(header_pairs(hs@), name@) is None,
        r is Some ==> first_value(header_pairs(hs@), name@) == Some(r->0@),
{
    let ghost pairs = header_pairs(hs@);
    let mut i: usize = 0;
    assert(pairs.subrange(0, pairs.len() as int) =~= pairs);
    while i < hs.len()
        invariant
            pairs == header_pairs(hs@),
            i <= hs@.len(),
            first_value(pairs, name@) == first_value(pairs.subrange(i as int, pairs.len() as int), name@),
        decreases hs@.len() - i,
    {
        assert(pairs.subrange(i as int, pairs.len() as int).drop_first() =~= pairs.subrange(
            i as int + 1,
            pairs.len() as int,
        ));
        assert(pairs.subrange(i as int, pairs.len() as int)[0] == pairs[i as int]);
        if str_eq(hs[i].0.as_str(), name) {
            return Some(&hs[i].1);
        }
        i = i + 1;
    }
    None
}

/// Makes a response head from what `httparse` read: the status, every
/// header with its value made a string, the advertised length and whether
/// the body is chunked. `None` when the head is not acceptable.
pub fn interpret_head(code: u16, reason: &str, headers: &Vec<(String, Vec<u8>)>) -> (r: Option<ResponseHead>)
    ensures
        r is Some <==> head_acceptable(header_pairs(headers@)),
        r is Some ==> {
            let h = r->0;
            &&& h.status.code == code
            &&& h.status.reason@ == reason@
            &&& h.headers@.len() == headers@.len()
            &&& forall|i: int|
                0 <= i < headers@.len() ==> (#[trigger] h.headers@[i]).name@ == headers@[i].0@
                    && h.headers@[i].value@ == utf8_lossy_of(headers@[i].1@)
            &&& h.content_length == content_length_of(header_pairs(headers@))->0
            &&& h.transfer_chunked == is_chunked(header_pairs(headers@))
        },
{
    let ghost pairs = header_pairs(headers@);
    let content_length = match find_value(headers, "Content-Length") {
        None => 0,
        Some(v) => match parse_decimal(v.as_slice()) {
            None => {
                return None;
            },
            Some(n) => n,
        },
    };
    let mut chunked = false;
    let mut owned: Vec<OwnedHeader> = Vec::new();
    let mut i: usize = 0;
    while i < headers.len()
        invariant
            pairs == header_pairs(headers@),
            i <= headers@.len(),
            owned@.len() == i,
            forall|j: int|
                0 <= j < i ==> (#[trigger] owned@[j]).name@ == headers@[j].0@ && owned@[j].value@
                    == utf8_lossy_of(headers@[j].1@),
            chunked == exists|j: int|
                0 <= j < i && (#[trigger] pairs[j]).0 == "Transfer-Encoding"@ && pairs[j].1
                    == vstd::utf8::encode_utf8("chunked"@),
            forall|j: int|
                0 <= j < i ==> !((#[trigger] pairs[j]).0 == "Transfer-Encoding"@ && pairs[j].1
                    != vstd::utf8::encode_utf8("chunked"@) && pairs[j].1 != vstd::utf8::encode_utf8(
                    "identity"@,
                )),
        decreases headers@.len() - i,
    {
        let h = &headers[i];
        assert(pairs[i as int] == (h.0@, h.1@));
        if str_eq(h.0.as_str(), "Transfer-Encoding") {
            if bytes_eq(h.1.as_slice(), "chunked".as_bytes()) {
                chunked = true;
            } else if !bytes_eq(h.1.as_slice(), "identity".as_bytes()) {
                assert(has_unknown_coding(pairs));
                return None;
            }
        }
        let name = h.0.clone();
        owned.push(OwnedHeader { name, value: lossy_string(h.1.as_slice()) });
        i = i + 1;
    }
    let reason = reason.to_string();
    Some(ResponseHead { status: Status { code, reason }, headers: owned, content_length, transfer_chunked: chunked })
}

} // verus!
