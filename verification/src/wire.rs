//! The wire boundary.
//!
//! Everything this crate takes on trust about the outside world is declared
//! here: how a cookie is parsed from and printed to its wire form, whether a
//! string is a URI the transport can address, and how a JSON value becomes
//! bytes.  Each trusted declaration names the outside function it relies on.
//! The header-value rule itself is small enough to state and prove directly.

use vstd::prelude::*;
use vstd::string::StrSliceExecFns;
use crate::cookies::Cookie;
use crate::cookies::CookieModel;

verus! {

/// The serialized `cookie` request-header line for a cookie: `name=value`.
pub open spec fn cookie_line(c: CookieModel) -> Seq<char> {
    c.name + seq!['='] + c.value
}

/// The view of a sequence of header (name, value) pairs.
pub open spec fn pairs_model(h: Seq<(String, String)>) -> Seq<(Seq<char>, Seq<char>)> {
    h.map(|i: int, p: (String, String)| (p.0@, p.1@))
}

/// What parsing a `Set-Cookie` value yields: the cookie's name and value
/// when the string parses as a cookie, nothing otherwise.
pub uninterp spec fn wire_cookie_parse(s: Seq<char>) -> Option<(Seq<char>, Seq<char>)>;

/// Relies on `cookie::Cookie::parse`: it parses a `Set-Cookie` header value
/// (name and value split at the first `=`, surrounding whitespace and value
/// quotes trimmed, attributes after `;` dropped here), and rejects a string
/// with no `=` or an empty name.  The outcome depends on the string alone.
#[verifier::external_body]
pub(crate) fn parse_wire_cookie(s: &str) -> (r: Option<Cookie>)
    ensures
        match r {
            Some(c) => wire_cookie_parse(s@) == Some((c@.name, c@.value)),
            None => wire_cookie_parse(s@) is None,
        },
{
    match cookie::Cookie::parse(s) {
        Ok(c) => Some(Cookie { name: c.name().to_string(), value: c.value().to_string() }),
        Err(_) => None,
    }
}

/// Relies on the `Display` impl of `cookie::Cookie`: a cookie carrying only
/// a name and a value prints as `name=value`, with no attributes appended.
#[verifier::external_body]
pub(crate) fn encode_wire_cookie(c: &Cookie) -> (r: String)
    ensures
        r@ == cookie_line(c@),
{
    cookie::Cookie::new(c.name.as_str(), c.value.as_str()).to_string()
}

/// Whether a string is a URI the transport can address.
pub uninterp spec fn uri_ok(s: Seq<char>) -> bool;

/// Relies on the `FromStr` impl of `hyper::Uri`: whether the string parses
/// as a URI.  The outcome depends on the string alone.
#[verifier::external_body]
pub(crate) fn uri_valid(s: &str) -> (r: bool)
    ensures
        r == uri_ok(s@),
{
    s.parse::<hyper::Uri>().is_ok()
}

#[verifier::external_type_specification]
#[verifier::external_body]
pub struct ExValue(serde_json::Value);

/// What encoding a JSON value yields: its serialized bytes, or nothing when
/// serialization fails.
pub uninterp spec fn json_encoding(v: serde_json::Value) -> Option<Seq<u8>>;

/// Relies on `serde_json::to_vec`: it encodes a JSON value to bytes, a
/// deterministic function of the value alone (object keys are kept sorted);
/// a serialization error is handed back as `None`.
#[verifier::external_body]
pub(crate) fn encode_json_value(v: &serde_json::Value) -> (r: Option<Vec<u8>>)
    ensures
        match r {
            Some(b) => json_encoding(*v) == Some(b@),
            None => json_encoding(*v) is None,
        },
{
    serde_json::to_vec(v).ok()
}

/// A character that may stand in a header value on the wire: horizontal tab,
/// or anything that is neither an ASCII control character nor `DEL`.  This
/// is the byte-wise rule `http`'s `HeaderValue::from_str` enforces; beyond
/// ASCII the bytes of a character never fall in the excluded range, so the
/// rule can be stated per character.
pub open spec fn header_char_ok(c: char) -> bool {
    c as u32 == 9 || (c as u32 >= 32 && c as u32 != 127)
}

/// Whether every character of `s` may stand in a header value.
pub open spec fn wire_header_value_ok(s: Seq<char>) -> bool {
    forall|i: int| 0 <= i < s.len() ==> header_char_ok(#[trigger] s[i])
}

/// Check that `s` can stand as a header value on the wire.
pub fn header_value_ok(s: &str) -> (r: bool)
    ensures
        r == wire_header_value_ok(s@),
{
    let n = s.unicode_len();
    let mut i: usize = 0;
    while i < n
        invariant
            i <= n,
            n == s@.len(),
            forall|k: int| 0 <= k < i ==> header_char_ok(#[trigger] s@[k]),
        decreases n - i,
    {
        let c = s.get_char(i);
        let u = c as u32;
        if !(u == 9 || (u >= 32 && u != 127)) {
            proof {
                assert(!header_char_ok(s@[i as int]));
            }
            return false;
        }
        i += 1;
    }
    true
}

} // verus!
