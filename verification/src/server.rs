//! The session handle.
//!
//! A [`Server`] is the long-lived handle for one application under test: it
//! holds the base address, the cookies accumulated so far, and the defaults
//! every new request starts from.  Builders receive a snapshot of the cookie
//! set at creation time; cookies an application returns are folded back in
//! by [`Server::apply_response_cookies`], and only when saving was asked
//! for.

use vstd::prelude::*;
use vstd::string::StringExecFns;
use crate::config::ContentTypeState;
use crate::config::Method;
use crate::config::RequestConfig;
use crate::config::ServerConfig;
use crate::config::opt_str_model;
use crate::config::seeded_content_type;
use crate::cookies::Cookie;
use crate::cookies::CookieJar;
use crate::cookies::CookieModel;
use crate::cookies::distinct_names;
use crate::cookies::has_cookie_named;
use crate::cookies::jar_map;
use crate::cookies::lemma_jar_map_upsert;
use crate::cookies::upsert;
use crate::cookies::upsert_all;
use crate::error::Error;
use crate::request::BodyModel;
use crate::request::Request;
use crate::request::RequestModel;
use crate::request::cookie_headers;
use crate::uri::build_request_path;
use crate::uri::spec_join;
use crate::wire::cookie_line;
use crate::wire::pairs_model;
use crate::wire::parse_wire_cookie;
use crate::wire::wire_cookie_parse;

verus! {

/// Model of a session: its base address, cookie set, and defaults.
pub ghost struct ServerModel {
    pub base_address: Seq<char>,
    pub cookies: Seq<CookieModel>,
    pub save_cookies: bool,
    pub default_content_type: Option<Seq<char>>,
}

/// The session handle: your application under test, addressed by its base
/// address, with the cookies and defaults shared by every request made
/// through it.
pub struct Server {
    base_address: String,
    cookies: CookieJar,
    save_cookies: bool,
    default_content_type: Option<String>,
}

impl View for Server {
    type V = ServerModel;

    closed spec fn view(&self) -> ServerModel {
        ServerModel {
            base_address: self.base_address@,
            cookies: self.cookies@,
            save_cookies: self.save_cookies,
            default_content_type: opt_str_model(self.default_content_type),
        }
    }
}

/// The builder a session seeds for one request: the session defaults, the
/// resolved URL, and a snapshot of the session cookies; no body, no extra
/// headers.
pub open spec fn seeded_request(s: ServerModel, method: Method, path: Seq<char>) -> RequestModel {
    RequestModel {
        method,
        url: spec_join(s.base_address, path),
        save_cookies: s.save_cookies,
        content_type: seeded_content_type(s.default_content_type),
        body: BodyModel::Empty,
        headers: Seq::empty(),
        cookies: s.cookies,
    }
}

/// The view of a sequence of strings.
pub open spec fn strings_model(v: Seq<String>) -> Seq<Seq<char>> {
    v.map(|i: int, s: String| s@)
}

/// The values of the `set-cookie` headers among `h`, in order.
pub open spec fn set_cookie_values(h: Seq<(Seq<char>, Seq<char>)>) -> Seq<Seq<char>>
    decreases h.len(),
{
    if h.len() == 0 {
        Seq::empty()
    } else {
        let rest = set_cookie_values(h.drop_last());
        if h.last().0 == "set-cookie"@ {
            rest.push(h.last().1)
        } else {
            rest
        }
    }
}

/// Folding one wire cookie value into a jar: an unparsable value changes
/// nothing (the merge stops there anyway).
pub open spec fn merge_step(cs: Seq<CookieModel>, v: Seq<char>) -> Seq<CookieModel> {
    match wire_cookie_parse(v) {
        Some(p) => upsert(cs, CookieModel { name: p.0, value: p.1 }),
        None => cs,
    }
}

/// Folding wire cookie values into a jar, first to last.
pub open spec fn merge_all(cs: Seq<CookieModel>, vals: Seq<Seq<char>>) -> Seq<CookieModel>
    decreases vals.len(),
{
    if vals.len() == 0 {
        cs
    } else {
        merge_step(merge_all(cs, vals.drop_last()), vals.last())
    }
}

/// How many of `vals` parse as cookies before the first one that does not:
/// the merge folds in exactly this many, and succeeds as a whole exactly
/// when this is all of them.
pub open spec fn parsable_prefix_len(vals: Seq<Seq<char>>) -> int
    decreases vals.len(),
{
    if vals.len() == 0 {
        0
    } else if wire_cookie_parse(vals[0]) is None {
        0
    } else {
        1 + parsable_prefix_len(vals.drop_first())
    }
}

/// A position `k` with every earlier value parsable and the value at `k`
/// (if any) unparsable is the parsable prefix length.
proof fn lemma_parsable_prefix(vals: Seq<Seq<char>>, k: int)
    requires
        0 <= k <= vals.len(),
        forall|i: int| 0 <= i < k ==> wire_cookie_parse(#[trigger] vals[i]) is Some,
        k < vals.len() ==> wire_cookie_parse(vals[k]) is None,
    ensures
        parsable_prefix_len(vals) == k,
    decreases vals.len(),
{
    if vals.len() == 0 {
    } else if k == 0 {
    } else {
        let d = vals.drop_first();
        assert(forall|i: int| 0 <= i < d.len() ==> #[trigger] d[i] == vals[i + 1]);
        lemma_parsable_prefix(d, k - 1);
    }
}

impl Server {
    /// A fresh session against the application at `server_address`, with the
    /// default settings: no cookies, cookies not saved, no content type.
    pub fn new(server_address: String) -> (r: Result<Server, Error>)
        ensures
            r matches Ok(s) && s@ == (ServerModel {
                base_address: server_address@,
                cookies: Seq::empty(),
                save_cookies: false,
                default_content_type: None,
            }),
    {
        Ok(
            Server {
                base_address: server_address,
                cookies: CookieJar::new(),
                save_cookies: false,
                default_content_type: None,
            },
        )
    }

    /// A fresh session with the given defaults.
    pub fn new_with_config(server_address: String, config: ServerConfig) -> (r: Result<
        Server,
        Error,
    >)
        ensures
            r matches Ok(s) && s@ == (ServerModel {
                base_address: server_address@,
                cookies: Seq::empty(),
                save_cookies: config.save_cookies,
                default_content_type: opt_str_model(config.default_content_type),
            }),
    {
        Ok(
            Server {
                base_address: server_address,
                cookies: CookieJar::new(),
                save_cookies: config.save_cookies,
                default_content_type: config.default_content_type,
            },
        )
    }

    /// Drop every cookie stored in the session.
    pub fn clear_cookies(&mut self)
        ensures
            final(self)@ == (ServerModel { cookies: Seq::empty(), ..old(self)@ }),
    {
        self.cookies.clear();
    }

    /// Store a cookie for all future requests, replacing any stored cookie
    /// of the same name.
    pub fn add_cookie(&mut self, cookie: Cookie)
        requires
            distinct_names(old(self)@.cookies),
        ensures
            final(self)@ == (ServerModel {
                cookies: upsert(old(self)@.cookies, cookie@),
                ..old(self)@
            }),
            distinct_names(final(self)@.cookies),
            jar_map(final(self)@.cookies) == jar_map(old(self)@.cookies).insert(
                cookie@.name,
                cookie@.value,
            ),
    {
        self.cookies.add(cookie);
    }

    /// Store each given cookie, first to last, for all future requests;
    /// stored cookies of the same names are replaced.
    #[verifier::loop_isolation(false)]
    pub fn add_cookies(&mut self, cookies: CookieJar)
        requires
            distinct_names(old(self)@.cookies),
        ensures
            final(self)@ == (ServerModel {
                cookies: upsert_all(old(self)@.cookies, cookies@),
                ..old(self)@
            }),
            distinct_names(final(self)@.cookies),
    {
        let n = cookies.len();
        let mut i: usize = 0;
        proof {
            assert(cookies@.take(0) =~= Seq::<CookieModel>::empty());
        }
        while i < n
            invariant
                i <= n,
                n == cookies@.len(),
                distinct_names(self@.cookies),
                self@ == (ServerModel {
                    cookies: upsert_all(old(self)@.cookies, cookies@.take(i as int)),
                    ..old(self)@
                }),
            decreases n - i,
        {
            self.cookies.add(cookies.get(i).clone());
            proof {
                assert(cookies@.take(i + 1).drop_last() =~= cookies@.take(i as int));
                assert(cookies@.take(i + 1).last() == cookies@[i as int]);
            }
            i += 1;
        }
        proof {
            assert(cookies@.take(n as int) =~= cookies@);
        }
    }

    /// Seed a builder for a request with the given method, against `path`
    /// resolved by the URI-join rule, carrying the session defaults and a
    /// snapshot of the session cookies as they are at this moment.
    pub fn method(&self, method: Method, path: &str) -> (r: Request)
        ensures
            r@ == seeded_request(self@, method, path@),
    {
        let url = build_request_path(self.base_address.as_str(), path);
        let content_type = match &self.default_content_type {
            Some(s) => ContentTypeState::Defaulted(s.clone()),
            None => ContentTypeState::Unset,
        };
        let config = RequestConfig {
            method,
            request_path: url,
            save_cookies: self.save_cookies,
            content_type,
        };
        Request::new(config, self.cookies.clone())
    }

    /// Seed a builder for an HTTP GET request to the path.
    pub fn get(&self, path: &str) -> (r: Request)
        ensures
            r@ == seeded_request(self@, Method::Get, path@),
    {
        self.method(Method::Get, path)
    }

    /// Seed a builder for an HTTP POST request to the path.
    pub fn post(&self, path: &str) -> (r: Request)
        ensures
            r@ == seeded_request(self@, Method::Post, path@),
    {
        self.method(Method::Post, path)
    }

    /// Seed a builder for an HTTP PATCH request to the path.
    pub fn patch(&self, path: &str) -> (r: Request)
        ensures
            r@ == seeded_request(self@, Method::Patch, path@),
    {
        self.method(Method::Patch, path)
    }

    /// Seed a builder for an HTTP PUT request to the path.
    pub fn put(&self, path: &str) -> (r: Request)
        ensures
            r@ == seeded_request(self@, Method::Put, path@),
    {
        self.method(Method::Put, path)
    }

    /// Seed a builder for an HTTP DELETE request to the path.
    pub fn delete(&self, path: &str) -> (r: Request)
        ensures
            r@ == seeded_request(self@, Method::Delete, path@),
    {
        self.method(Method::Delete, path)
    }

    /// Fold wire cookie values into the session jar, first to last, each one
    /// replacing any stored cookie of the same name.  The merge stops at the
    /// first value that does not parse: earlier values stay merged, and the
    /// failure is reported.
    #[verifier::loop_isolation(false)]
    pub fn add_cookies_by_header(&mut self, cookie_headers: &Vec<String>) -> (r: Result<(), Error>)
        requires
            distinct_names(old(self)@.cookies),
        ensures
            final(self)@.cookies == merge_all(
                old(self)@.cookies,
                strings_model(cookie_headers@).take(
                    parsable_prefix_len(strings_model(cookie_headers@)),
                ),
            ),
            r is Ok <==> parsable_prefix_len(strings_model(cookie_headers@)) == strings_model(
                cookie_headers@,
            ).len(),
            r is Err ==> r == Err::<(), Error>(Error::CookieParse),
            final(self)@ == (ServerModel { cookies: final(self)@.cookies, ..old(self)@ }),
            distinct_names(final(self)@.cookies),
    {
        let ghost vals = strings_model(cookie_headers@);
        let n = cookie_headers.len();
        let mut i: usize = 0;
        proof {
            assert(vals.take(0) =~= Seq::<Seq<char>>::empty());
        }
        while i < n
            invariant
                i <= n,
                n == vals.len(),
                distinct_names(self@.cookies),
                forall|q: int| 0 <= q < i ==> wire_cookie_parse(#[trigger] vals[q]) is Some,
                self@ == (ServerModel {
                    cookies: merge_all(old(self)@.cookies, vals.take(i as int)),
                    ..old(self)@
                }),
            decreases n - i,
        {
            proof {
                assert(vals[i as int] == cookie_headers@[i as int]@);
            }
            match parse_wire_cookie(cookie_headers[i].as_str()) {
                Some(c) => {
                    self.cookies.add(c);
                    proof {
                        assert(vals.take(i + 1).drop_last() =~= vals.take(i as int));
                        assert(vals.take(i + 1).last() == vals[i as int]);
                    }
                },
                None => {
                    proof {
                        lemma_parsable_prefix(vals, i as int);
                    }
                    return Err(Error::CookieParse);
                },
            }
            i += 1;
        }
        proof {
            assert(vals.take(n as int) =~= vals);
            lemma_parsable_prefix(vals, n as int);
        }
        Ok(())
    }

    /// Fold the cookies an application returned back into the session — but
    /// only when `save_cookies` asks for it: without it the session is left
    /// exactly as it was.  The `set-cookie` entries of `response_headers`
    /// (named as the transport hands them, lower-case) are merged in order;
    /// the merge stops at the first entry that does not parse.
    pub fn apply_response_cookies(
        &mut self,
        save_cookies: bool,
        response_headers: &Vec<(String, String)>,
    ) -> (r: Result<(), Error>)
        requires
            distinct_names(old(self)@.cookies),
        ensures
            !save_cookies ==> final(self)@ == old(self)@ && r is Ok,
            save_cookies ==> final(self)@.cookies == merge_all(
                old(self)@.cookies,
                set_cookie_values(pairs_model(response_headers@)).take(
                    parsable_prefix_len(set_cookie_values(pairs_model(response_headers@))),
                ),
            ),
            save_cookies ==> (r is Ok <==> parsable_prefix_len(
                set_cookie_values(pairs_model(response_headers@)),
            ) == set_cookie_values(pairs_model(response_headers@)).len()),
            r is Err ==> r == Err::<(), Error>(Error::CookieParse),
            final(self)@ == (ServerModel { cookies: final(self)@.cookies, ..old(self)@ }),
            distinct_names(final(self)@.cookies),
    {
        if !save_cookies {
            return Ok(());
        }
        let values = collect_set_cookie_values(response_headers);
        self.add_cookies_by_header(&values)
    }
}

/// Pick out the values of the `set-cookie` headers, in order.
#[verifier::loop_isolation(false)]
fn collect_set_cookie_values(response_headers: &Vec<(String, String)>) -> (r: Vec<String>)
    ensures
        strings_model(r@) == set_cookie_values(pairs_model(response_headers@)),
{
    let ghost h = pairs_model(response_headers@);
    let needle: String = String::from_str("set-cookie");
    let mut values: Vec<String> = Vec::new();
    let n = response_headers.len();
    let mut i: usize = 0;
    proof {
        assert(h.take(0) =~= Seq::<(Seq<char>, Seq<char>)>::empty());
        assert(strings_model(values@) =~= set_cookie_values(h.take(0)));
    }
    while i < n
        invariant
            i <= n,
            n == h.len(),
            needle@ == "set-cookie"@,
            strings_model(values@) == set_cookie_values(h.take(i as int)),
        decreases n - i,
    {
        proof {
            assert(h[i as int] == (response_headers@[i as int].0@, response_headers@[i as int].1@));
            assert(h.take(i + 1).drop_last() =~= h.take(i as int));
            assert(h.take(i + 1).last() == h[i as int]);
        }
        if response_headers[i].0 == needle {
            values.push(response_headers[i].1.clone());
            proof {
                assert(strings_model(values@) =~= set_cookie_values(h.take(i + 1)));
            }
        } else {
            proof {
                assert(strings_model(values@) =~= set_cookie_values(h.take(i + 1)));
            }
        }
        i += 1;
    }
    proof {
        assert(h.take(n as int) =~= h);
    }
    values
}

/// Merging parsed wire cookies keeps the jar's names distinct.
proof fn lemma_merge_all_distinct(cs: Seq<CookieModel>, vals: Seq<Seq<char>>)
    requires
        distinct_names(cs),
    ensures
        distinct_names(merge_all(cs, vals)),
    decreases vals.len(),
{
    if vals.len() > 0 {
        lemma_merge_all_distinct(cs, vals.drop_last());
        match wire_cookie_parse(vals.last()) {
            Some(p) => {
                lemma_jar_map_upsert(
                    merge_all(cs, vals.drop_last()),
                    CookieModel { name: p.0, value: p.1 },
                );
            },
            None => {},
        }
    }
}

/// Law: save-cookie gating, completeness of the merge.  When every value
/// parses, the merge consumes them all, so saving a response whose
/// `set-cookie` values all parse returns `Ok` and folds every one of them
/// into the session.
pub proof fn lemma_all_values_merge(vals: Seq<Seq<char>>)
    requires
        forall|q: int| 0 <= q < vals.len() ==> wire_cookie_parse(#[trigger] vals[q]) is Some,
    ensures
        parsable_prefix_len(vals) == vals.len(),
        vals.take(parsable_prefix_len(vals)) == vals,
{
    lemma_parsable_prefix(vals, vals.len() as int);
    assert(vals.take(vals.len() as int) =~= vals);
}

/// Law: save-cookie gating, the saving direction, at the level of the
/// model.  When every returned value parses, a merged cookie whose name no
/// later value carries stands in the session's map afterwards with exactly
/// its value.
pub proof fn lemma_merged_cookie_present(cs: Seq<CookieModel>, vals: Seq<Seq<char>>, i: int)
    requires
        distinct_names(cs),
        forall|q: int| 0 <= q < vals.len() ==> wire_cookie_parse(#[trigger] vals[q]) is Some,
        0 <= i < vals.len(),
        forall|j: int|
            i < j < vals.len() ==> wire_cookie_parse(#[trigger] vals[j])->Some_0.0
                != wire_cookie_parse(vals[i])->Some_0.0,
    ensures
        distinct_names(merge_all(cs, vals)),
        jar_map(merge_all(cs, vals)).contains_pair(
            wire_cookie_parse(vals[i])->Some_0.0,
            wire_cookie_parse(vals[i])->Some_0.1,
        ),
    decreases vals.len(),
{
    lemma_merge_all_distinct(cs, vals);
    let v0 = vals.drop_last();
    let t = merge_all(cs, v0);
    lemma_merge_all_distinct(cs, v0);
    let lastv = vals.last();
    let p = wire_cookie_parse(lastv)->Some_0;
    let c = CookieModel { name: p.0, value: p.1 };
    lemma_jar_map_upsert(t, c);
    assert(merge_all(cs, vals) == upsert(t, c));
    if i == vals.len() - 1 {
        assert(jar_map(upsert(t, c)).contains_pair(c.name, c.value));
    } else {
        assert(forall|q: int| 0 <= q < v0.len() ==> #[trigger] v0[q] == vals[q]);
        lemma_merged_cookie_present(cs, v0, i);
        assert(wire_cookie_parse(vals[vals.len() - 1])->Some_0.0 != wire_cookie_parse(
            vals[i],
        )->Some_0.0);
        assert(jar_map(upsert(t, c)).contains_pair(
            wire_cookie_parse(vals[i])->Some_0.0,
            wire_cookie_parse(vals[i])->Some_0.1,
        ));
    }
}

/// Law: cookie isolation.  A builder carries the session cookies as they
/// were when it was seeded; a cookie the session acquires afterwards — one
/// whose name the snapshot does not hold — corresponds to no cookie and to
/// no outbound `cookie` header of that builder.
pub proof fn lemma_cookie_isolation(s: ServerModel, method: Method, path: Seq<char>, c: CookieModel)
    requires
        !has_cookie_named(s.cookies, c.name),
    ensures
        seeded_request(s, method, path).cookies == s.cookies,
        !has_cookie_named(seeded_request(s, method, path).cookies, c.name),
        forall|i: int|
            0 <= i < s.cookies.len() ==> (#[trigger] cookie_headers(s.cookies)[i]) == ("cookie"@,
            cookie_line(s.cookies[i])) && s.cookies[i].name != c.name,
{
    assert(forall|i: int|
        0 <= i < s.cookies.len() ==> (#[trigger] s.cookies[i]).name != c.name);
}

} // verus!
