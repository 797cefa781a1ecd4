//! Cookies and the session cookie jar.
//!
//! A [`Cookie`] is a name/value pair; wire attributes (path, domain, expiry,
//! ...) are not tracked.  A [`CookieJar`] is a set of cookies keyed by name:
//! adding a cookie whose name is already present replaces the earlier entry,
//! so the jar never holds two cookies of the same name.

use vstd::prelude::*;
use vstd::pervasive::VecAdditionalExecFns;

verus! {

/// Mathematical model of one cookie: its name and value as character sequences.
pub ghost struct CookieModel {
    pub name: Seq<char>,
    pub value: Seq<char>,
}

/// A cookie: a name and a value.
pub struct Cookie {
    pub name: String,
    pub value: String,
}

impl View for Cookie {
    type V = CookieModel;

    open spec fn view(&self) -> CookieModel {
        CookieModel { name: self.name@, value: self.value@ }
    }
}

impl Cookie {
    pub fn new(name: String, value: String) -> (r: Cookie)
        ensures
            r@ == (CookieModel { name: name@, value: value@ }),
    {
        Cookie { name, value }
    }

    pub fn name(&self) -> (r: &String)
        ensures
            r@ == self@.name,
    {
        &self.name
    }

    pub fn value(&self) -> (r: &String)
        ensures
            r@ == self@.value,
    {
        &self.value
    }
}

impl Clone for Cookie {
    fn clone(&self) -> (r: Self)
        ensures
            r == *self,
    {
        Cookie { name: self.name.clone(), value: self.value.clone() }
    }
}

/// Whether some cookie in `s` is named `name`.
pub open spec fn has_cookie_named(s: Seq<CookieModel>, name: Seq<char>) -> bool {
    exists|i: int| 0 <= i < s.len() && s[i].name == name
}

/// The position of the cookie named `name` (meaningful when names are
/// distinct and such a cookie exists).
pub open spec fn cookie_index(s: Seq<CookieModel>, name: Seq<char>) -> int {
    choose|i: int| 0 <= i < s.len() && s[i].name == name
}

/// No two cookies in `s` share a name.
pub open spec fn distinct_names(s: Seq<CookieModel>) -> bool {
    forall|i: int, j: int| #![trigger s[i], s[j]] 0 <= i < j < s.len() ==> s[i].name != s[j].name
}

/// Adding a cookie to a jar: replace the entry of the same name in place,
/// or append at the end when the name is new.
pub open spec fn upsert(s: Seq<CookieModel>, c: CookieModel) -> Seq<CookieModel> {
    if has_cookie_named(s, c.name) {
        s.update(cookie_index(s, c.name), c)
    } else {
        s.push(c)
    }
}

/// Adding a sequence of cookies, first to last.
pub open spec fn upsert_all(s: Seq<CookieModel>, adds: Seq<CookieModel>) -> Seq<CookieModel>
    decreases adds.len(),
{
    if adds.len() == 0 {
        s
    } else {
        upsert(upsert_all(s, adds.drop_last()), adds.last())
    }
}

/// The jar as a map from cookie name to cookie value.  Later entries win,
/// which is indifferent for jars with distinct names.
pub open spec fn jar_map(s: Seq<CookieModel>) -> Map<Seq<char>, Seq<char>>
    decreases s.len(),
{
    if s.len() == 0 {
        Map::empty()
    } else {
        jar_map(s.drop_last()).insert(s.last().name, s.last().value)
    }
}

/// A set of cookies keyed by name, in insertion order.
pub struct CookieJar {
    items: Vec<Cookie>,
}

impl View for CookieJar {
    type V = Seq<CookieModel>;

    closed spec fn view(&self) -> Seq<CookieModel> {
        self.items@.map(|i: int, c: Cookie| c@)
    }
}

impl CookieJar {
    pub fn new() -> (r: CookieJar)
        ensures
            r@ == Seq::<CookieModel>::empty(),
    {
        let r = CookieJar { items: Vec::new() };
        proof {
            assert(r@ =~= Seq::<CookieModel>::empty());
        }
        r
    }

    pub fn len(&self) -> (r: usize)
        ensures
            r == self@.len(),
    {
        self.items.len()
    }

    pub fn get(&self, i: usize) -> (r: &Cookie)
        requires
            i < self@.len(),
        ensures
            r@ == self@[i as int],
    {
        &self.items[i]
    }

    /// Where the cookie named `name` sits, if anywhere.
    fn position_of(&self, name: &String) -> (r: Option<usize>)
        ensures
            match r {
                Some(i) => i < self@.len() && self@[i as int].name == name@,
                None => !has_cookie_named(self@, name@),
            },
    {
        let n = self.items.len();
        let mut i: usize = 0;
        while i < n
            invariant
                i <= n,
                n == self@.len(),
                forall|k: int| 0 <= k < i ==> (#[trigger] self@[k]).name != name@,
            decreases n - i,
        {
            if self.items[i].name == *name {
                return Some(i);
            }
            i += 1;
        }
        None
    }

    /// Add a cookie, replacing any earlier cookie of the same name.
    pub fn add(&mut self, cookie: Cookie)
        requires
            distinct_names(old(self)@),
        ensures
            final(self)@ == upsert(old(self)@, cookie@),
            distinct_names(final(self)@),
            jar_map(final(self)@) == jar_map(old(self)@).insert(cookie@.name, cookie@.value),
    {
        proof {
            lemma_jar_map_upsert(self@, cookie@);
        }
        let position = self.position_of(&cookie.name);
        match position {
            Some(i) => {
                proof {
                    assert(has_cookie_named(self@, cookie@.name));
                    let k = cookie_index(self@, cookie@.name);
                    assert(0 <= k < self@.len() && self@[k].name == cookie@.name);
                    assert(k == i as int);
                }
                self.items.set(i, cookie);
                proof {
                    assert(self@ =~= upsert(old(self)@, cookie@));
                }
            },
            None => {
                self.items.push(cookie);
                proof {
                    assert(self@ =~= upsert(old(self)@, cookie@));
                }
            },
        }
    }

    /// Drop every cookie.
    pub fn clear(&mut self)
        ensures
            final(self)@ == Seq::<CookieModel>::empty(),
    {
        self.items.clear();
        proof {
            assert(self@ =~= Seq::<CookieModel>::empty());
        }
    }
}

impl Clone for CookieJar {
    fn clone(&self) -> (r: Self)
        ensures
            r@ == self@,
    {
        let items = self.items.clone();
        proof {
            assert(forall|i: int| 0 <= i < items@.len() ==> #[trigger] items@[i] == self.items@[i]);
            assert(items@ =~= self.items@);
        }
        let r = CookieJar { items };
        proof {
            assert(r@ =~= self@);
        }
        r
    }
}

/// Replacing-or-appending one cookie changes the jar's map by exactly one
/// `insert`, and keeps the names distinct.
pub proof fn lemma_jar_map_upsert(s: Seq<CookieModel>, c: CookieModel)
    requires
        distinct_names(s),
    ensures
        jar_map(upsert(s, c)) == jar_map(s).insert(c.name, c.value),
        distinct_names(upsert(s, c)),
    decreases s.len(),
{
    if !has_cookie_named(s, c.name) {
        let t = s.push(c);
        assert(t.drop_last() =~= s);
        assert(t.last() == c);
        assert(jar_map(t) == jar_map(s).insert(c.name, c.value));
        assert(distinct_names(t)) by {
            assert(forall|i: int| 0 <= i < s.len() ==> (#[trigger] s[i]).name != c.name);
        }
    } else {
        let k = cookie_index(s, c.name);
        assert(0 <= k < s.len() && s[k].name == c.name);
        let t = s.update(k, c);
        assert(distinct_names(t)) by {
            assert(forall|i: int| 0 <= i < t.len() && i != k ==> #[trigger] t[i] == s[i]);
        }
        if k == s.len() - 1 {
            assert(t.drop_last() =~= s.drop_last());
            assert(t.last() == c);
            assert(jar_map(t) == jar_map(s.drop_last()).insert(c.name, c.value));
            assert(jar_map(s) == jar_map(s.drop_last()).insert(c.name, s.last().value));
            assert(jar_map(s).insert(c.name, c.value) =~= jar_map(s.drop_last()).insert(
                c.name,
                c.value,
            ));
        } else {
            let s0 = s.drop_last();
            assert(s0[k] == s[k]);
            assert(has_cookie_named(s0, c.name));
            assert(distinct_names(s0)) by {
                assert(forall|i: int| 0 <= i < s0.len() ==> #[trigger] s0[i] == s[i]);
            }
            lemma_jar_map_upsert(s0, c);
            let k0 = cookie_index(s0, c.name);
            assert(0 <= k0 < s0.len() && s0[k0].name == c.name);
            assert(k0 == k) by {
                assert(s[k0].name == c.name);
            }
            assert(upsert(s0, c) == s0.update(k, c));
            assert(t.drop_last() =~= s0.update(k, c));
            assert(t.last() == s.last());
            assert(jar_map(t) == jar_map(s0.update(k, c)).insert(s.last().name, s.last().value));
            assert(jar_map(t) == jar_map(s0).insert(c.name, c.value).insert(
                s.last().name,
                s.last().value,
            ));
            assert(c.name != s.last().name) by {
                assert(s[k].name == c.name);
            }
            assert(jar_map(s0).insert(c.name, c.value).insert(s.last().name, s.last().value)
                =~= jar_map(s0).insert(s.last().name, s.last().value).insert(c.name, c.value));
            assert(jar_map(s) == jar_map(s0).insert(s.last().name, s.last().value));
        }
    }
}

/// Law: however many cookies are added, in whatever order, the jar ends up
/// with exactly one entry per distinct name (`distinct_names`), the entry for
/// a name is the value of the last addition of that name, and the names
/// present are the old ones together with the added ones.
pub proof fn lemma_last_add_wins(s: Seq<CookieModel>, adds: Seq<CookieModel>)
    requires
        distinct_names(s),
    ensures
        distinct_names(upsert_all(s, adds)),
        forall|i: int|
            0 <= i < adds.len() && (forall|j: int|
                i < j < adds.len() ==> (#[trigger] adds[j]).name != adds[i].name)
                ==> jar_map(upsert_all(s, adds)).contains_pair(
                (#[trigger] adds[i]).name,
                adds[i].value,
            ),
        forall|n: Seq<char>|
            #![trigger jar_map(upsert_all(s, adds)).dom().contains(n)]
            jar_map(upsert_all(s, adds)).dom().contains(n) <==> (jar_map(s).dom().contains(n)
                || has_cookie_named(adds, n)),
    decreases adds.len(),
{
    if adds.len() == 0 {
        lemma_jar_map_names(s);
    } else {
        let a0 = adds.drop_last();
        let last = adds.last();
        lemma_last_add_wins(s, a0);
        let t = upsert_all(s, a0);
        lemma_jar_map_upsert(t, last);
        assert(upsert_all(s, adds) == upsert(t, last));
        assert forall|i: int|
            0 <= i < adds.len() && (forall|j: int|
                i < j < adds.len() ==> (#[trigger] adds[j]).name != adds[i].name) implies jar_map(
            upsert(t, last),
        ).contains_pair((#[trigger] adds[i]).name, adds[i].value) by {
            if i == adds.len() - 1 {
                assert(jar_map(upsert(t, last)).contains_pair(last.name, last.value));
            } else {
                assert(adds[adds.len() - 1].name != adds[i].name);
                assert(a0[i] == adds[i]);
                assert(forall|j: int|
                    i < j < a0.len() ==> (#[trigger] a0[j]).name != a0[i].name) by {
                    assert(forall|j: int| 0 <= j < a0.len() ==> #[trigger] a0[j] == adds[j]);
                }
                assert(jar_map(t).contains_pair(adds[i].name, adds[i].value));
            }
        }
        assert forall|n: Seq<char>| jar_map(upsert(t, last)).dom().contains(n) <==> (jar_map(
            s,
        ).dom().contains(n) || has_cookie_named(adds, n)) by {
            if n == last.name {
                assert(has_cookie_named(adds, n));
                assert(jar_map(upsert(t, last)).dom().contains(n));
            } else {
                assert(jar_map(upsert(t, last)).dom().contains(n) <==> jar_map(t).dom().contains(
                    n,
                ));
                assert(jar_map(t).dom().contains(n) <==> (jar_map(s).dom().contains(n)
                    || has_cookie_named(a0, n)));
                assert(has_cookie_named(a0, n) <==> has_cookie_named(adds, n)) by {
                    assert(forall|j: int| 0 <= j < a0.len() ==> #[trigger] a0[j] == adds[j]);
                    if has_cookie_named(adds, n) {
                        let w = choose|i: int| 0 <= i < adds.len() && adds[i].name == n;
                        assert(w < adds.len() - 1);
                        assert(a0[w].name == n);
                    }
                }
            }
        }
    }
}

/// A name is in the jar's map exactly when some cookie carries it.
pub proof fn lemma_jar_map_names(s: Seq<CookieModel>)
    ensures
        forall|n: Seq<char>| jar_map(s).dom().contains(n) <==> has_cookie_named(s, n),
    decreases s.len(),
{
    if s.len() > 0 {
        lemma_jar_map_names(s.drop_last());
        assert forall|n: Seq<char>| jar_map(s).dom().contains(n) <==> has_cookie_named(s, n) by {
            if n == s.last().name {
                assert(has_cookie_named(s, n));
            } else {
                assert(has_cookie_named(s.drop_last(), n) <==> has_cookie_named(s, n)) by {
                    if has_cookie_named(s, n) {
                        let w = choose|i: int| 0 <= i < s.len() && s[i].name == n;
                        assert(w < s.len() - 1);
                        assert(s.drop_last()[w].name == n);
                    }
                }
            }
        }
    }
}

} // verus!
