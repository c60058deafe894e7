//! Matchers decide whether a request falls under a rule.
use vstd::prelude::*;
use vstd::utf8::{encode_utf8, is_char_boundary};

use crate::http::{header_lookup, headers_get, HeaderContent, HeaderVal, Request};

verus! {

/// Used to determine if a Request matches certain criteria.
#[derive(Debug, PartialEq)]
pub enum Matcher {
    /// Matches when all of the inner matchers match.
    And(Vec<Matcher>),
    /// Matches when at least one of the inner matchers matches.
    Or(Vec<Matcher>),
    /// Matches the `Host` header of the request against the given domain.
    Domain(String),
    /// Matches the path of the request against the given prefix.
    PathPrefix(String),
}

/// The mathematical model of a [`Matcher`].
#[verifier::ext_equal]
pub enum SpecMatcher {
    And(Seq<SpecMatcher>),
    Or(Seq<SpecMatcher>),
    Domain(Seq<char>),
    PathPrefix(Seq<char>),
}

/// The model of a matcher, with strings taken by their characters.
pub open spec fn model(m: &Matcher) -> SpecMatcher
    decreases m,
{
    match m {
        Matcher::And(v) => SpecMatcher::And(
            Seq::new(
                v@.len(),
                |i: int|
                    if 0 <= i < v@.len() {
                        model(&v@[i])
                    } else {
                        SpecMatcher::And(Seq::empty())
                    },
            ),
        ),
        Matcher::Or(v) => SpecMatcher::Or(
            Seq::new(
                v@.len(),
                |i: int|
                    if 0 <= i < v@.len() {
                        model(&v@[i])
                    } else {
                        SpecMatcher::And(Seq::empty())
                    },
            ),
        ),
        Matcher::Domain(d) => SpecMatcher::Domain(d@),
        Matcher::PathPrefix(p) => SpecMatcher::PathPrefix(p@),
    }
}

/// The models of a sequence of matchers.
pub open spec fn models(v: Seq<Matcher>) -> Seq<SpecMatcher> {
    v.map_values(|m: Matcher| model(&m))
}

/// The model of a combined matcher is built from the models of its parts.
pub proof fn lemma_model_combined(v: Vec<Matcher>)
    ensures
        model(&Matcher::And(v)) == SpecMatcher::And(models(v@)),
        model(&Matcher::Or(v)) == SpecMatcher::Or(models(v@)),
{
    assert(match model(&Matcher::And(v)) {
        SpecMatcher::And(x) => x,
        _ => Seq::empty(),
    } =~= models(v@));
    assert(match model(&Matcher::Or(v)) {
        SpecMatcher::Or(x) => x,
        _ => Seq::empty(),
    } =~= models(v@));
}

/// The model of a combined matcher, read off the matcher itself.
pub proof fn lemma_model_combined_self(m: &Matcher)
    ensures
        m matches Matcher::And(v) ==> m@ == SpecMatcher::And(models(v@)),
        m matches Matcher::Or(v) ==> m@ == SpecMatcher::Or(models(v@)),
{
    match m {
        Matcher::And(v) => lemma_model_combined(*v),
        Matcher::Or(v) => lemma_model_combined(*v),
        _ => {},
    }
}

impl View for Matcher {
    type V = SpecMatcher;

    open spec fn view(&self) -> SpecMatcher {
        model(self)
    }
}

/// The domain named by a matcher: its own for `Domain`, the first one named
/// by an inner matcher for `And` and `Or`, none for `PathPrefix`.
pub open spec fn host_of(m: SpecMatcher) -> Option<Seq<char>>
    decreases m, 0int,
{
    match m {
        SpecMatcher::And(v) => host_of_seq(v, 0),
        SpecMatcher::Or(v) => host_of_seq(v, 0),
        SpecMatcher::Domain(d) => Some(d),
        SpecMatcher::PathPrefix(_) => None,
    }
}

/// The first domain named by `v[i]`, `v[i + 1]`, ... in that order.
pub open spec fn host_of_seq(v: Seq<SpecMatcher>, i: int) -> Option<Seq<char>>
    decreases v, v.len() - i,
{
    if i < 0 || i >= v.len() {
        None
    } else {
        match host_of(v[i]) {
            Some(d) => Some(d),
            None => host_of_seq(v, i + 1),
        }
    }
}

/// Copies the inner matchers of a combined matcher.
fn clone_all(v: &Vec<Matcher>) -> (res: Vec<Matcher>)
    ensures
        res@.len() == v@.len(),
        forall|j: int| 0 <= j < v@.len() ==> model(&res@[j]) == model(&v@[j]),
    decreases v@, 0int,
{
    let mut out: Vec<Matcher> = Vec::new();
    let mut i: usize = 0;
    while i < v.len()
        invariant
            0 <= i <= v@.len(),
            out@.len() == i,
            forall|j: int| 0 <= j < i ==> model(&out@[j]) == model(&v@[j]),
        decreases v@.len() - i,
    {
        out.push(clone_matcher(&v[i]));
        i = i + 1;
    }
    out
}

/// Copies a matcher.
fn clone_matcher(m: &Matcher) -> (res: Matcher)
    ensures
        res@ == m@,
    decreases m, 1int,
{
    match m {
        Matcher::And(v) => {
            let out = clone_all(v);
            proof {
                assert(models(out@) =~= models(v@));
                lemma_model_combined(out);
                lemma_model_combined(*v);
            }
            Matcher::And(out)
        },
        Matcher::Or(v) => {
            let out = clone_all(v);
            proof {
                assert(models(out@) =~= models(v@));
                lemma_model_combined(out);
                lemma_model_combined(*v);
            }
            Matcher::Or(out)
        },
        Matcher::Domain(d) => Matcher::Domain(d.clone()),
        Matcher::PathPrefix(p) => Matcher::PathPrefix(p.clone()),
    }
}

impl Clone for Matcher {
    fn clone(&self) -> (res: Self)
        ensures
            res@ == self@,
    {
        clone_matcher(self)
    }
}

/// The first domain named by one of the matchers in `v`.
fn first_host(v: &Vec<Matcher>) -> (res: Option<String>)
    ensures
        match res {
            Some(d) => host_of_seq(v@.map_values(|m: Matcher| model(&m)), 0) == Some(d@),
            None => host_of_seq(v@.map_values(|m: Matcher| model(&m)), 0) is None,
        },
    decreases v@, 0int,
{
    let ghost sv = v@.map_values(|m: Matcher| model(&m));
    let mut i: usize = 0;
    while i < v.len()
        invariant
            sv == v@.map_values(|m: Matcher| model(&m)),
            host_of_seq(sv, 0) == host_of_seq(sv, i as int),
            0 <= i <= v@.len(),
        decreases v@.len() - i,
    {
        if let Some(d) = v[i].get_host() {
            return Some(d);
        }
        i = i + 1;
    }
    None
}

/// Whether the bytes of `prefix` start the bytes of `text`.
pub open spec fn byte_prefix(prefix: Seq<char>, text: Seq<char>) -> bool {
    let p = encode_utf8(prefix);
    let t = encode_utf8(text);
    t.len() >= p.len() && t.take(p.len() as int) == p
}

/// Whether a matcher matches a request with the given `Host` header value
/// and path.
pub open spec fn matcher_matches(m: SpecMatcher, host: Option<HeaderVal>, path: Seq<char>) -> bool
    decreases m, 0int,
{
    match m {
        SpecMatcher::And(v) => all_match_from(v, 0, host, path),
        SpecMatcher::Or(v) => any_match_from(v, 0, host, path),
        SpecMatcher::Domain(d) => host == Some(HeaderVal::Text(d)),
        SpecMatcher::PathPrefix(p) => byte_prefix(p, path),
    }
}

/// Whether all of `v[i]`, `v[i + 1]`, ... match.
pub open spec fn all_match_from(v: Seq<SpecMatcher>, i: int, host: Option<HeaderVal>, path: Seq<char>) -> bool
    decreases v, v.len() - i,
{
    if i < 0 || i >= v.len() {
        true
    } else {
        matcher_matches(v[i], host, path) && all_match_from(v, i + 1, host, path)
    }
}

/// Whether one of `v[i]`, `v[i + 1]`, ... matches.
pub open spec fn any_match_from(v: Seq<SpecMatcher>, i: int, host: Option<HeaderVal>, path: Seq<char>) -> bool
    decreases v, v.len() - i,
{
    if i < 0 || i >= v.len() {
        false
    } else {
        matcher_matches(v[i], host, path) || any_match_from(v, i + 1, host, path)
    }
}

/// Whether evaluating the matcher against the path, in order and stopping
/// as soon as the outcome of `And`/`Or` is known, only cuts the path at
/// character boundaries.
pub open spec fn path_cut_ok(m: SpecMatcher, host: Option<HeaderVal>, path: Seq<char>) -> bool
    decreases m, 0int,
{
    match m {
        SpecMatcher::And(v) => all_cut_ok_from(v, 0, host, path),
        SpecMatcher::Or(v) => any_cut_ok_from(v, 0, host, path),
        SpecMatcher::Domain(_) => true,
        SpecMatcher::PathPrefix(p) => encode_utf8(path).len() < encode_utf8(p).len()
            || is_char_boundary(encode_utf8(path), encode_utf8(p).len() as int),
    }
}

/// `path_cut_ok` for the inner matchers of an `And`, from position `i`.
pub open spec fn all_cut_ok_from(v: Seq<SpecMatcher>, i: int, host: Option<HeaderVal>, path: Seq<char>) -> bool
    decreases v, v.len() - i,
{
    if i < 0 || i >= v.len() {
        true
    } else {
        path_cut_ok(v[i], host, path) && (matcher_matches(v[i], host, path) ==> all_cut_ok_from(
            v,
            i + 1,
            host,
            path,
        ))
    }
}

/// `path_cut_ok` for the inner matchers of an `Or`, from position `i`.
pub open spec fn any_cut_ok_from(v: Seq<SpecMatcher>, i: int, host: Option<HeaderVal>, path: Seq<char>) -> bool
    decreases v, v.len() - i,
{
    if i < 0 || i >= v.len() {
        true
    } else {
        path_cut_ok(v[i], host, path) && (!matcher_matches(v[i], host, path) ==> any_cut_ok_from(
            v,
            i + 1,
            host,
            path,
        ))
    }
}

/// Whether the bytes of `prefix` start the bytes of `text`.
pub fn starts_with_bytes(text: &str, prefix: &str) -> (res: bool)
    ensures
        res == byte_prefix(prefix@, text@),
{
    let t = text.as_bytes();
    let p = prefix.as_bytes();
    if t.len() < p.len() {
        return false;
    }
    let mut i: usize = 0;
    while i < p.len()
        invariant
            t@ == encode_utf8(text@),
            p@ == encode_utf8(prefix@),
            t@.len() >= p@.len(),
            0 <= i <= p@.len(),
            forall|j: int| 0 <= j < i ==> t@[j] == p@[j],
        decreases p@.len() - i,
    {
        if t[i] != p[i] {
            return false;
        }
        i = i + 1;
    }
    assert(t@.take(p@.len() as int) =~= p@);
    true
}

/// Whether all the matchers in `v` match the request.
fn all_match(v: &Vec<Matcher>, req: &Request) -> (res: bool)
    requires
        all_cut_ok_from(models(v@), 0, header_lookup(req.headers, "Host"@), req.path@),
    ensures
        res == all_match_from(models(v@), 0, header_lookup(req.headers, "Host"@), req.path@),
    decreases v@, 0int,
{
    let ghost sv = models(v@);
    let ghost host = header_lookup(req.headers, "Host"@);
    let mut i: usize = 0;
    while i < v.len()
        invariant
            sv == models(v@),
            host == header_lookup(req.headers, "Host"@),
            all_match_from(sv, 0, host, req.path@) == all_match_from(sv, i as int, host, req.path@),
            all_cut_ok_from(sv, i as int, host, req.path@),
            0 <= i <= v@.len(),
        decreases v@.len() - i,
    {
        assert(sv[i as int] == v@[i as int]@);
        if !v[i].matches(req) {
            return false;
        }
        i = i + 1;
    }
    true
}

/// Whether one of the matchers in `v` matches the request.
fn any_match(v: &Vec<Matcher>, req: &Request) -> (res: bool)
    requires
        any_cut_ok_from(models(v@), 0, header_lookup(req.headers, "Host"@), req.path@),
    ensures
        res == any_match_from(models(v@), 0, header_lookup(req.headers, "Host"@), req.path@),
    decreases v@, 0int,
{
    let ghost sv = models(v@);
    let ghost host = header_lookup(req.headers, "Host"@);
    let mut i: usize = 0;
    while i < v.len()
        invariant
            sv == models(v@),
            host == header_lookup(req.headers, "Host"@),
            any_match_from(sv, 0, host, req.path@) == any_match_from(sv, i as int, host, req.path@),
            any_cut_ok_from(sv, i as int, host, req.path@),
            0 <= i <= v@.len(),
        decreases v@.len() - i,
    {
        assert(sv[i as int] == v@[i as int]@);
        if v[i].matches(req) {
            return true;
        }
        i = i + 1;
    }
    false
}

/// Whether evaluating the matchers in `v`, as an `And` does, only cuts the
/// path at character boundaries.
fn all_cut_checked(v: &Vec<Matcher>, req: &Request) -> (res: bool)
    ensures
        res == all_cut_ok_from(models(v@), 0, header_lookup(req.headers, "Host"@), req.path@),
    decreases v@, 0int,
{
    let ghost sv = models(v@);
    let ghost host = header_lookup(req.headers, "Host"@);
    let mut i: usize = 0;
    while i < v.len()
        invariant
            sv == models(v@),
            host == header_lookup(req.headers, "Host"@),
            all_cut_ok_from(sv, 0, host, req.path@) == all_cut_ok_from(sv, i as int, host, req.path@),
            0 <= i <= v@.len(),
        decreases v@.len() - i,
    {
        assert(sv[i as int] == v@[i as int]@);
        if !v[i].cuts_path_safely(req) {
            return false;
        }
        if !v[i].matches(req) {
            return true;
        }
        i = i + 1;
    }
    true
}

/// Whether evaluating the matchers in `v`, as an `Or` does, only cuts the
/// path at character boundaries.
fn any_cut_checked(v: &Vec<Matcher>, req: &Request) -> (res: bool)
    ensures
        res == any_cut_ok_from(models(v@), 0, header_lookup(req.headers, "Host"@), req.path@),
    decreases v@, 0int,
{
    let ghost sv = models(v@);
    let ghost host = header_lookup(req.headers, "Host"@);
    let mut i: usize = 0;
    while i < v.len()
        invariant
            sv == models(v@),
            host == header_lookup(req.headers, "Host"@),
            any_cut_ok_from(sv, 0, host, req.path@) == any_cut_ok_from(sv, i as int, host, req.path@),
            0 <= i <= v@.len(),
        decreases v@.len() - i,
    {
        assert(sv[i as int] == v@[i as int]@);
        if !v[i].cuts_path_safely(req) {
            return false;
        }
        if v[i].matches(req) {
            return true;
        }
        i = i + 1;
    }
    true
}

impl Matcher {
    /// Checks whether matching the request cuts its path only at character
    /// boundaries, which `matches` needs.
    pub fn cuts_path_safely(&self, req: &Request) -> (res: bool)
        ensures
            res == path_cut_ok(self@, header_lookup(req.headers, "Host"@), req.path@),
        decreases self, 1int,
    {
        proof {
            lemma_model_combined_self(self);
        }
        match self {
            Matcher::And(matchers) => all_cut_checked(matchers, req),
            Matcher::Or(matchers) => any_cut_checked(matchers, req),
            Matcher::Domain(_) => true,
            Matcher::PathPrefix(prefix) => {
                let path_len = req.path.as_str().as_bytes().len();
                let prefix_len = prefix.as_str().as_bytes().len();
                path_len < prefix_len || req.path.as_str().is_char_boundary(prefix_len)
            },
        }
    }

    /// Checks if the matcher matches the given HTTP-Request.
    pub fn matches(&self, req: &Request) -> (res: bool)
        requires
            path_cut_ok(self@, header_lookup(req.headers, "Host"@), req.path@),
        ensures
            res == matcher_matches(self@, header_lookup(req.headers, "Host"@), req.path@),
        decreases self, 1int,
    {
        proof {
            lemma_model_combined_self(self);
        }
        match self {
            Matcher::And(matchers) => all_match(matchers, req),
            Matcher::Or(matchers) => any_match(matchers, req),
            Matcher::Domain(domain) => match headers_get(&req.headers, "Host") {
                Some(HeaderContent::Text(value)) => value == *domain,
                _ => false,
            },
            Matcher::PathPrefix(path) => starts_with_bytes(req.path.as_str(), path.as_str()),
        }
    }

    /// Returns the Domain that belongs to this Matcher.
    pub fn get_host(&self) -> (res: Option<String>)
        ensures
            match res {
                Some(d) => host_of(self@) == Some(d@),
                None => host_of(self@) is None,
            },
        decreases self, 1int,
    {
        match self {
            Matcher::And(matchers) | Matcher::Or(matchers) => {
                assert(matchers@.map_values(|m: Matcher| model(&m)) =~= match self@ {
                    SpecMatcher::And(v) => v,
                    SpecMatcher::Or(v) => v,
                    _ => Seq::empty(),
                });
                first_host(matchers)
            },
            Matcher::Domain(domain) => Some(domain.clone()),
            _ => None,
        }
    }
}

} // verus!
