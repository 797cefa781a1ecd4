//! The one-shot request builder.
//!
//! A [`Request`] is created by the [`Server`](crate::Server) pre-seeded with
//! the session defaults and a snapshot of the session cookies, is configured
//! by chained calls, and is then consumed — exactly once — by
//! [`Request::into_wire`], which resolves the final wire-level form.  Because
//! `into_wire` takes the builder by value, sending an already-sent builder is
//! ruled out by the type system rather than at run time.

use vstd::prelude::*;
use vstd::string::StrSliceExecFns;
use vstd::string::StringExecFns;
use vstd::string::StringSliceAdditionalSpecFns;
use crate::config::ContentTypeModel;
use crate::config::ContentTypeState;
use crate::config::Method;
use crate::config::RequestConfig;
use crate::config::content_type_model;
use crate::config::effective_content_type;
use crate::cookies::Cookie;
use crate::cookies::CookieJar;
use crate::cookies::CookieModel;
use crate::cookies::distinct_names;
use crate::cookies::has_cookie_named;
use crate::cookies::cookie_index;
use crate::cookies::upsert;
use crate::error::Error;
use crate::wire::cookie_line;
use crate::wire::encode_json_value;
use crate::wire::json_encoding;
use crate::wire::encode_wire_cookie;
use crate::wire::header_value_ok;
use crate::wire::pairs_model;
use crate::wire::uri_ok;
use crate::wire::uri_valid;
use crate::wire::wire_header_value_ok;

verus! {

/// The body a builder will send.
pub(crate) enum BodyState {
    /// No body was set; a zero-length payload goes out.
    Empty,
    /// The body is these bytes.
    Raw(Vec<u8>),
    /// A body setter was called but its payload could not be encoded; the
    /// failure surfaces when the builder is consumed.
    EncodeFailed,
}

/// Model of a builder's body.
pub enum BodyModel {
    Empty,
    Raw(Seq<u8>),
    EncodeFailed,
}

/// Model of a builder's body state.
pub(crate) open spec fn body_model(b: &BodyState) -> BodyModel {
    match b {
        BodyState::Empty => BodyModel::Empty,
        BodyState::Raw(v) => BodyModel::Raw(v@),
        BodyState::EncodeFailed => BodyModel::EncodeFailed,
    }
}

/// Model of a request builder.
pub ghost struct RequestModel {
    pub method: Method,
    pub url: Seq<char>,
    pub save_cookies: bool,
    pub content_type: ContentTypeModel,
    pub body: BodyModel,
    pub headers: Seq<(Seq<char>, Seq<char>)>,
    pub cookies: Seq<CookieModel>,
}

/// A request under construction against the server that created it.
#[must_use]
pub struct Request {
    pub(crate) config: RequestConfig,
    pub(crate) body: BodyState,
    pub(crate) headers: Vec<(String, String)>,
    pub(crate) cookies: CookieJar,
}

impl View for Request {
    type V = RequestModel;

    closed spec fn view(&self) -> RequestModel {
        RequestModel {
            method: self.config.method,
            url: self.config.request_path@,
            save_cookies: self.config.save_cookies,
            content_type: content_type_model(&self.config.content_type),
            body: body_model(&self.body),
            headers: pairs_model(self.headers@),
            cookies: self.cookies@,
        }
    }
}

/// The content type after a body setter whose payload implies `implied`:
/// a type chosen on this request — explicitly or by an earlier body setter —
/// always wins, while a session default or no type at all gives way.
pub open spec fn resolve_content_type(
    current: ContentTypeModel,
    implied: Seq<char>,
) -> ContentTypeModel {
    match current {
        ContentTypeModel::Chosen(v) => ContentTypeModel::Chosen(v),
        _ => ContentTypeModel::Chosen(implied),
    }
}

impl Request {
    /// Seed a fresh builder from per-request settings and a cookie snapshot.
    pub(crate) fn new(config: RequestConfig, cookies: CookieJar) -> (r: Request)
        ensures
            r@ == (RequestModel {
                method: config.method,
                url: config.request_path@,
                save_cookies: config.save_cookies,
                content_type: content_type_model(&config.content_type),
                body: BodyModel::Empty,
                headers: Seq::empty(),
                cookies: cookies@,
            }),
    {
        let r = Request { config, body: BodyState::Empty, headers: Vec::new(), cookies };
        proof {
            assert(pairs_model(r.headers@) =~= Seq::<(Seq<char>, Seq<char>)>::empty());
        }
        r
    }

    /// Cookies returned on this request will be saved to the session that
    /// created it, for use by future requests.
    pub fn do_save_cookies(self) -> (r: Request)
        ensures
            r@ == (RequestModel { save_cookies: true, ..self@ }),
    {
        let mut s = self;
        s.config.save_cookies = true;
        s
    }

    /// Cookies returned on this request will not be saved to the session.
    pub fn do_not_save_cookies(self) -> (r: Request)
        ensures
            r@ == (RequestModel { save_cookies: false, ..self@ }),
    {
        let mut s = self;
        s.config.save_cookies = false;
        s
    }

    /// Drop every cookie from this request's snapshot.  The session's own
    /// cookies are untouched.
    pub fn clear_cookies(self) -> (r: Request)
        ensures
            r@ == (RequestModel { cookies: Seq::empty(), ..self@ }),
    {
        let mut s = self;
        s.cookies.clear();
        s
    }

    /// Add a cookie to be sent with this request, replacing any snapshot
    /// cookie of the same name.  The session's own cookies are untouched.
    pub fn add_cookie(self, cookie: Cookie) -> (r: Request)
        requires
            distinct_names(self@.cookies),
        ensures
            r@ == (RequestModel { cookies: upsert(self@.cookies, cookie@), ..self@ }),
            distinct_names(r@.cookies),
    {
        let mut s = self;
        s.cookies.add(cookie);
        s
    }

    /// Set the body to the JSON encoding of `payload`, replacing any earlier
    /// body; unless a content type was chosen on this request already,
    /// `application/json` is implied.
    pub fn json(self, payload: &serde_json::Value) -> (r: Request)
        ensures
            r@ == (RequestModel {
                body: match json_encoding(*payload) {
                    Some(b) => BodyModel::Raw(b),
                    None => BodyModel::EncodeFailed,
                },
                content_type: resolve_content_type(self@.content_type, "application/json"@),
                ..self@
            }),
    {
        let mut s = self;
        match encode_json_value(payload) {
            Some(b) => {
                s.body = BodyState::Raw(b);
            },
            None => {
                s.body = BodyState::EncodeFailed;
            },
        }
        if !matches!(s.config.content_type, ContentTypeState::Chosen(_)) {
            s.config.content_type = ContentTypeState::Chosen(
                String::from_str("application/json"),
            );
        }
        s
    }

    /// Set raw text as the body, replacing any earlier body; unless a
    /// content type was chosen on this request already, `text/plain` is
    /// implied.
    pub fn text(self, raw_text: &str) -> (r: Request)
        ensures
            r@ == (RequestModel {
                body: BodyModel::Raw(raw_text.spec_bytes()),
                content_type: resolve_content_type(self@.content_type, "text/plain"@),
                ..self@
            }),
    {
        let mut s = self;
        s.body = BodyState::Raw(raw_text.as_bytes_vec());
        if !matches!(s.config.content_type, ContentTypeState::Chosen(_)) {
            s.config.content_type = ContentTypeState::Chosen(String::from_str("text/plain"));
        }
        s
    }

    /// Set raw bytes as the body.  The content type is left unchanged.
    pub fn bytes(self, body_bytes: Vec<u8>) -> (r: Request)
        ensures
            r@ == (RequestModel { body: BodyModel::Raw(body_bytes@), ..self@ }),
    {
        let mut s = self;
        s.body = BodyState::Raw(body_bytes);
        s
    }

    /// Set the content type of this request, overriding the session default
    /// and any earlier or later implied choice.
    pub fn content_type(self, content_type: &str) -> (r: Request)
        ensures
            r@ == (RequestModel {
                content_type: ContentTypeModel::Chosen(content_type@),
                ..self@
            }),
    {
        let mut s = self;
        s.config.content_type = ContentTypeState::Chosen(content_type.to_owned());
        s
    }
}

/// A fully resolved request, ready to be handed to a transport.
pub struct WireRequest {
    pub method: Method,
    pub url: String,
    pub headers: Vec<(String, String)>,
    pub body: Vec<u8>,
    pub save_cookies: bool,
}

/// Model of a fully resolved request.
pub ghost struct WireModel {
    pub method: Method,
    pub url: Seq<char>,
    pub headers: Seq<(Seq<char>, Seq<char>)>,
    pub body: Seq<u8>,
    pub save_cookies: bool,
}

impl View for WireRequest {
    type V = WireModel;

    open spec fn view(&self) -> WireModel {
        WireModel {
            method: self.method,
            url: self.url@,
            headers: pairs_model(self.headers@),
            body: self.body@,
            save_cookies: self.save_cookies,
        }
    }
}

/// The content-type header entries of a resolved request: one entry when a
/// content type is in effect, none otherwise.
pub open spec fn content_type_headers(ct: ContentTypeModel) -> Seq<(Seq<char>, Seq<char>)> {
    match effective_content_type(ct) {
        Some(v) => seq![("content-type"@, v)],
        None => Seq::empty(),
    }
}

/// The cookie header entries of a resolved request: one `cookie` header per
/// snapshot cookie, in jar order.
pub open spec fn cookie_headers(cs: Seq<CookieModel>) -> Seq<(Seq<char>, Seq<char>)> {
    Seq::new(cs.len(), |i: int| ("cookie"@, cookie_line(cs[i])))
}

/// All wire headers of a builder: the explicit headers first, then the
/// content-type header if one is set, then one cookie header per cookie.
pub open spec fn wire_headers(m: RequestModel) -> Seq<(Seq<char>, Seq<char>)> {
    m.headers + content_type_headers(m.content_type) + cookie_headers(m.cookies)
}

/// Whether every header value the builder would emit can stand on the wire.
pub open spec fn headers_encodable(m: RequestModel) -> bool {
    (forall|i: int|
        0 <= i < m.headers.len() ==> wire_header_value_ok((#[trigger] m.headers[i]).1))
        && (match effective_content_type(m.content_type) {
        Some(v) => wire_header_value_ok(v),
        None => true,
    }) && (forall|i: int|
        0 <= i < m.cookies.len() ==> wire_header_value_ok(cookie_line(#[trigger] m.cookies[i])))
}

/// The bytes a body resolves to: an unset body is a zero-length payload.
pub open spec fn final_body_bytes(b: BodyModel) -> Seq<u8> {
    match b {
        BodyModel::Raw(v) => v,
        _ => Seq::empty(),
    }
}

/// What consuming a builder yields: the resolved request, or the error owed.
/// A body that failed to encode or a URL that does not parse is an assembly
/// failure; otherwise a header value that cannot stand on the wire is an
/// encoding failure; otherwise the resolved request.
pub open spec fn into_wire_spec(m: RequestModel) -> Result<WireModel, Error> {
    if m.body is EncodeFailed {
        Err(Error::RequestAssembly)
    } else if !uri_ok(m.url) {
        Err(Error::RequestAssembly)
    } else if !headers_encodable(m) {
        Err(Error::HeaderEncoding)
    } else {
        Ok(
            WireModel {
                method: m.method,
                url: m.url,
                headers: wire_headers(m),
                body: final_body_bytes(m.body),
                save_cookies: m.save_cookies,
            },
        )
    }
}

/// The model of a resolution outcome.
pub open spec fn wire_result_model(r: Result<WireRequest, Error>) -> Result<WireModel, Error> {
    match r {
        Ok(w) => Ok(w@),
        Err(e) => Err(e),
    }
}

impl Request {
    /// Resolve this builder into its final wire-level form, consuming it.
    /// Taking the builder by value makes a second send of the same request
    /// impossible by construction.
    #[verifier::loop_isolation(false)]
    pub fn into_wire(self) -> (r: Result<WireRequest, Error>)
        ensures
            wire_result_model(r) == into_wire_spec(self@),
    {
        let ghost m = self@;
        let Request { config, body, headers, cookies } = self;
        proof {
            assert(m.body == body_model(&body));
        }
        let body_vec: Vec<u8>;
        match body {
            BodyState::EncodeFailed => {
                return Err(Error::RequestAssembly);
            },
            BodyState::Empty => {
                body_vec = Vec::new();
                proof {
                    assert(!(m.body is EncodeFailed));
                    assert(body_vec@ =~= final_body_bytes(m.body));
                }
            },
            BodyState::Raw(b) => {
                body_vec = b;
                proof {
                    assert(!(m.body is EncodeFailed));
                    assert(body_vec@ == final_body_bytes(m.body));
                }
            },
        }
        if !uri_valid(config.request_path.as_str()) {
            return Err(Error::RequestAssembly);
        }
        proof {
            assert(uri_ok(m.url));
        }
        let mut out: Vec<(String, String)> = Vec::new();
        let n = headers.len();
        let mut i: usize = 0;
        while i < n
            invariant
                i <= n,
                n == headers.len(),
                m.headers == pairs_model(headers@),
                out@.len() == i,
                forall|k: int|
                    0 <= k < i ==> ((#[trigger] out@[k]).0@, out@[k].1@) == m.headers[k],
                forall|k: int| 0 <= k < i ==> wire_header_value_ok((#[trigger] m.headers[k]).1),
            decreases n - i,
        {
            proof {
                assert(m.headers[i as int] == (headers@[i as int].0@, headers@[i as int].1@));
            }
            if !header_value_ok(headers[i].1.as_str()) {
                proof {
                    assert(!headers_encodable(m));
                }
                return Err(Error::HeaderEncoding);
            }
            out.push((headers[i].0.clone(), headers[i].1.clone()));
            i += 1;
        }
        match &config.content_type {
            ContentTypeState::Unset => {},
            ContentTypeState::Defaulted(ct) => {
                if !header_value_ok(ct.as_str()) {
                    proof {
                        assert(!headers_encodable(m));
                    }
                    return Err(Error::HeaderEncoding);
                }
                out.push((String::from_str("content-type"), ct.clone()));
            },
            ContentTypeState::Chosen(ct) => {
                if !header_value_ok(ct.as_str()) {
                    proof {
                        assert(!headers_encodable(m));
                    }
                    return Err(Error::HeaderEncoding);
                }
                out.push((String::from_str("content-type"), ct.clone()));
            },
        }
        let ghost ctn: int = content_type_headers(m.content_type).len() as int;
        proof {
            assert(out@.len() == m.headers.len() + ctn);
            assert(forall|k: int|
                0 <= k < out@.len() ==> ((#[trigger] out@[k]).0@, out@[k].1@) == (m.headers
                    + content_type_headers(m.content_type))[k]);
        }
        let ncook = cookies.len();
        let mut j: usize = 0;
        while j < ncook
            invariant
                j <= ncook,
                ncook == cookies@.len(),
                cookies@ == m.cookies,
                out@.len() == m.headers.len() + ctn + j,
                ctn == content_type_headers(m.content_type).len() as int,
                forall|k: int|
                    0 <= k < m.headers.len() + ctn ==> ((#[trigger] out@[k]).0@, out@[k].1@) == (
                    m.headers + content_type_headers(m.content_type))[k],
                forall|k: int|
                    0 <= k < j ==> ((#[trigger] out@[m.headers.len() + ctn + k]).0@, out@[m.headers.len()
                        + ctn + k].1@) == ("cookie"@, cookie_line(m.cookies[k])),
                forall|k: int|
                    0 <= k < j ==> wire_header_value_ok(cookie_line(#[trigger] m.cookies[k])),
                match effective_content_type(m.content_type) {
                    Some(v) => wire_header_value_ok(v),
                    None => true,
                },
                forall|k: int|
                    0 <= k < m.headers.len() ==> wire_header_value_ok((#[trigger] m.headers[k]).1),
            decreases ncook - j,
        {
            let line = encode_wire_cookie(cookies.get(j));
            if !header_value_ok(line.as_str()) {
                proof {
                    assert(!wire_header_value_ok(cookie_line(m.cookies[j as int])));
                    assert(!headers_encodable(m));
                }
                return Err(Error::HeaderEncoding);
            }
            out.push((String::from_str("cookie"), line));
            j += 1;
        }
        proof {
            assert(headers_encodable(m));
            let ghost base = m.headers.len() as int;
            assert(out@.len() == wire_headers(m).len());
            assert forall|k: int|
                0 <= k < out@.len() implies #[trigger] pairs_model(out@)[k] == wire_headers(m)[k] by {
                if k < base + ctn {
                    assert((out@[k].0@, out@[k].1@) == (m.headers + content_type_headers(
                        m.content_type,
                    ))[k]);
                } else {
                    let k2 = k - base - ctn;
                    assert((out@[base + ctn + k2].0@, out@[base + ctn + k2].1@) == ("cookie"@,
                    cookie_line(m.cookies[k2])));
                    assert(cookie_headers(m.cookies)[k2] == ("cookie"@, cookie_line(
                        m.cookies[k2],
                    )));
                }
            }
            assert(pairs_model(out@) =~= wire_headers(m));
        }
        let w = WireRequest {
            method: config.method,
            url: config.request_path,
            headers: out,
            body: body_vec,
            save_cookies: config.save_cookies,
        };
        Ok(w)
    }
}

/// Law: content-type precedence, highest to lowest: a type chosen
/// explicitly on the request, the type a body setter implies at the time it
/// runs, the session default captured at builder creation.  An explicit
/// choice survives a body setter; a body setter's implied type replaces the
/// session default or an absent type, and is itself never replaced by a
/// later body setter's implied type; a session default left alone reaches
/// the wire; and with no content type at all the content-type header part
/// is empty.
pub proof fn lemma_content_type_precedence(
    current: ContentTypeModel,
    explicit: Seq<char>,
    implied: Seq<char>,
    later_implied: Seq<char>,
    session_default: Seq<char>,
)
    ensures
        resolve_content_type(ContentTypeModel::Chosen(explicit), implied)
            == ContentTypeModel::Chosen(explicit),
        resolve_content_type(ContentTypeModel::Defaulted(session_default), implied)
            == ContentTypeModel::Chosen(implied),
        resolve_content_type(ContentTypeModel::Unset, implied) == ContentTypeModel::Chosen(
            implied,
        ),
        resolve_content_type(resolve_content_type(current, implied), later_implied)
            == resolve_content_type(current, implied),
        effective_content_type(ContentTypeModel::Defaulted(session_default)) == Some(
            session_default,
        ),
        content_type_headers(ContentTypeModel::Unset) == Seq::<(Seq<char>, Seq<char>)>::empty(),
{
}

/// Law: a request with no content type at all emits no content-type header.
/// The hypothesis on the extra headers holds of every builder the session
/// seeds: they start empty and no operation adds one.
pub proof fn lemma_no_content_type_header(m: RequestModel)
    requires
        m.content_type is Unset,
        m.headers == Seq::<(Seq<char>, Seq<char>)>::empty(),
    ensures
        forall|i: int|
            0 <= i < wire_headers(m).len() ==> (#[trigger] wire_headers(m)[i]).0 != "content-type"@,
{
    reveal_strlit("cookie");
    reveal_strlit("content-type");
    assert("cookie"@.len() == 6);
    assert("content-type"@.len() == 12);
    assert forall|i: int|
        0 <= i < wire_headers(m).len() implies (#[trigger] wire_headers(m)[i]).0
        != "content-type"@ by {
        assert(wire_headers(m)[i] == cookie_headers(m.cookies)[i]);
        assert(wire_headers(m)[i].0 == "cookie"@);
    }
}

/// Law: a cookie added to a builder is sent verbatim.  After the addition
/// the snapshot holds the cookie, and the emitted cookie headers contain the
/// entry `("cookie", name=value)` for it.
pub proof fn lemma_added_cookie_sent(cs: Seq<CookieModel>, c: CookieModel)
    ensures
        has_cookie_named(upsert(cs, c), c.name),
        exists|i: int|
            0 <= i < cookie_headers(upsert(cs, c)).len() && #[trigger] cookie_headers(
                upsert(cs, c),
            )[i] == ("cookie"@, cookie_line(c)),
{
    let t = upsert(cs, c);
    if has_cookie_named(cs, c.name) {
        let k = cookie_index(cs, c.name);
        assert(0 <= k < cs.len() && cs[k].name == c.name);
        assert(t[k] == c);
        assert(cookie_headers(t)[k] == ("cookie"@, cookie_line(c)));
    } else {
        assert(t[cs.len() as int] == c);
        assert(cookie_headers(t)[cs.len() as int] == ("cookie"@, cookie_line(c)));
    }
}

/// Law: each snapshot cookie stands at a fixed place among the wire headers,
/// behind the explicit headers and the content-type header.
pub proof fn lemma_cookie_header_position(m: RequestModel, i: int)
    requires
        0 <= i < m.cookies.len(),
    ensures
        wire_headers(m)[m.headers.len() + content_type_headers(m.content_type).len() + i] == (
        "cookie"@,
        cookie_line(m.cookies[i]),
        ),
{
}

} // verus!
