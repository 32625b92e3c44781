//! A case-insensitive, multi-value header container.
//!
//! Header names are compared without regard to ASCII letter case; a name maps
//! to an ordered sequence of values. The container's view is a map from the
//! case-folded name to the sequence of value strings, and every lookup folds
//! the probe name first, so `Connection`, `CONNECTION` and `connection` are
//! the same key. Name and value validation is the work of `http_types`,
//! reached through the trusted wrappers at the bottom of this file.

use vstd::prelude::*;

use crate::text::{eq_ignore_ascii_case, lower, str_eq_ci};
use vstd::map::*;
use vstd::utf8::is_ascii_chars;

verus! {

/// The one failure this crate models: a header name or value that is not
/// valid ASCII. Anything else about a request degrades to "no match" rather
/// than to an error.
#[derive(Clone, Copy, Debug, PartialEq, Eq, Structural)]
pub enum HeaderError {
    NotAscii,
}

/// An interned, case-insensitive header name. Its view is the stored string;
/// [`HeaderName::from_string`] stores the case-folded form, so two names that
/// differ only in ASCII case have equal views.
#[derive(Debug)]
pub struct HeaderName {
    name: String,
}

impl View for HeaderName {
    type V = Seq<char>;

    closed spec fn view(&self) -> Seq<char> {
        self.name@
    }
}

impl HeaderName {
    /// Parse a header name. Succeeds exactly on ASCII input, and normalizes
    /// the name to its lowercase form.
    pub fn from_string(s: String) -> (r: Result<HeaderName, HeaderError>)
        ensures
            is_ascii_chars(s@) <==> r is Ok,
            r is Ok ==> r->Ok_0@ == lower(s@),
            r is Err ==> r->Err_0 == HeaderError::NotAscii,
    {
        match parse_header_name(s.as_str()) {
            Ok(name) => Ok(HeaderName { name }),
            Err(_) => Err(HeaderError::NotAscii),
        }
    }

    /// The normalized (lowercase) name.
    pub fn as_str(&self) -> (r: &str)
        ensures
            r@ == self@,
    {
        self.name.as_str()
    }
}

/// An opaque string token held under a header name. Matching against it is
/// case-insensitive, but the value itself is stored exactly as given.
#[derive(Debug)]
pub struct HeaderValue {
    value: String,
}

impl View for HeaderValue {
    type V = Seq<char>;

    closed spec fn view(&self) -> Seq<char> {
        self.value@
    }
}

impl HeaderValue {
    /// Parse a header value. Succeeds exactly on ASCII input, and keeps the
    /// value unchanged.
    pub fn from_str(s: &str) -> (r: Result<HeaderValue, HeaderError>)
        ensures
            is_ascii_chars(s@) <==> r is Ok,
            r is Ok ==> r->Ok_0@ == s@,
            r is Err ==> r->Err_0 == HeaderError::NotAscii,
    {
        match parse_header_value(s) {
            Ok(value) => Ok(HeaderValue { value }),
            Err(_) => Err(HeaderError::NotAscii),
        }
    }

    /// The value as a string slice.
    pub fn as_str(&self) -> (r: &str)
        ensures
            r@ == self@,
    {
        self.value.as_str()
    }
}

/// The views of a sequence of header values.
pub open spec fn values_view(vs: Seq<HeaderValue>) -> Seq<Seq<char>> {
    vs.map_values(|v: HeaderValue| v@)
}

/// One name with its ordered, non-empty-by-convention sequence of values.
struct HeaderEntry {
    name: HeaderName,
    values: Vec<HeaderValue>,
}

/// The key an entry occupies: its case-folded name.
spec fn entry_key(e: HeaderEntry) -> Seq<char> {
    lower(e.name@)
}

/// Whether some entry occupies key `k`.
spec fn has_key(es: Seq<HeaderEntry>, k: Seq<char>) -> bool {
    exists|i: int| 0 <= i < es.len() && entry_key(es[i]) == k
}

/// The index of the entry occupying key `k` (unique when the container is
/// well-formed).
spec fn index_of(es: Seq<HeaderEntry>, k: Seq<char>) -> int {
    choose|i: int| 0 <= i < es.len() && entry_key(es[i]) == k
}

/// A case-insensitive, multi-value header container: a mapping from the
/// case-folded header name to the ordered sequence of its values.
pub struct Headers {
    entries: Vec<HeaderEntry>,
}

impl View for Headers {
    type V = Map<Seq<char>, Seq<Seq<char>>>;

    closed spec fn view(&self) -> Map<Seq<char>, Seq<Seq<char>>> {
        Map::new(
            |k: Seq<char>| has_key(self.entries@, k),
            |k: Seq<char>| values_view(self.entries@[index_of(self.entries@, k)].values@),
        )
    }
}

impl Headers {
    /// Well-formed: no two entries share a case-folded name, so every name
    /// maps to at most one sequence of values. Every constructor and method
    /// of this type keeps it.
    pub closed spec fn wf(&self) -> bool {
        forall|i: int, j: int|
            0 <= i < j < self.entries@.len() ==> entry_key(self.entries@[i]) != entry_key(
                self.entries@[j],
            )
    }

    /// An empty container.
    pub fn new() -> (r: Headers)
        ensures
            r.wf(),
            r@ == Map::<Seq<char>, Seq<Seq<char>>>::empty(),
    {
        let r = Headers { entries: Vec::new() };
        proof {
            assert(r@ =~= Map::<Seq<char>, Seq<Seq<char>>>::empty());
        }
        r
    }

    /// The values stored under `name`, or `None` when no entry matches the
    /// name case-insensitively. Absence of the name is an answer, never an
    /// error.
    pub fn get(&self, name: &HeaderName) -> (r: Option<&Vec<HeaderValue>>)
        requires
            self.wf(),
        ensures
            r is Some ==> self@.contains_key(lower(name@)) && values_view(r->Some_0@)
                == self@[lower(name@)],
            r is None ==> !self@.contains_key(lower(name@)),
    {
        let mut i: usize = 0;
        while i < self.entries.len()
            invariant
                self.wf(),
                i <= self.entries@.len(),
                forall|j: int| 0 <= j < i ==> entry_key(self.entries@[j]) != lower(name@),
            decreases self.entries@.len() - i,
        {
            if eq_ignore_ascii_case(self.entries[i].name.as_str(), name.as_str()) {
                proof {
                    let es = self.entries@;
                    assert(entry_key(es[i as int]) == lower(name@));
                    assert(has_key(es, lower(name@)));
                    let w = index_of(es, lower(name@));
                    assert(0 <= w < es.len() && entry_key(es[w]) == lower(name@));
                    assert(w == i as int);
                    assert(self@.contains_key(lower(name@)));
                    assert(self@[lower(name@)] == values_view(es[i as int].values@));
                }
                return Some(&self.entries[i].values);
            }
            i += 1;
        }
        proof {
            assert(!has_key(self.entries@, lower(name@)));
        }
        None
    }

    /// Store `values` under `name`, replacing whatever the name held before.
    pub fn insert(&mut self, name: HeaderName, values: Vec<HeaderValue>)
        requires
            old(self).wf(),
        ensures
            final(self).wf(),
            final(self)@ == old(self)@.insert(lower(name@), values_view(values@)),
    {
        let ghost k = lower(name@);
        let ghost m0 = self@;
        self.remove(&name);
        let ghost mid = self.entries@;
        let ghost m_mid = self@;
        self.entries.push(HeaderEntry { name, values });
        proof {
            let vv = values_view(values@);
            let es = self.entries@;
            assert(es == mid.push(HeaderEntry { name, values }));
            assert(m_mid == m0.remove(k));
            assert(!m_mid.contains_key(k));
            assert(m_mid.contains_key(k) == has_key(mid, k));
            assert(!has_key(mid, k));
            // The pushed entry is the only one under key `k`, so the
            // container stays well-formed.
            assert(entry_key(es[es.len() - 1]) == k);
            assert forall|i: int| 0 <= i < mid.len() implies #[trigger] entry_key(es[i]) != k by {
                assert(es[i] == mid[i]);
                if entry_key(mid[i]) == k {
                    assert(has_key(mid, k));
                }
            }
            assert(self.wf());
            assert(has_key(es, k));
            assert_maps_equal!(self@, m0.insert(k, vv), kk => {
                if kk == k {
                    assert(has_key(es, k));
                    assert(self@.contains_key(kk));
                    let w = index_of(es, k);
                    assert(0 <= w < es.len() && entry_key(es[w]) == k);
                    assert(w == es.len() - 1);
                    assert(self@[kk] == values_view(es[w].values@));
                    assert(es[w].values@ == values@);
                    assert(m0.insert(k, vv)[kk] == vv);
                } else {
                    if has_key(es, kk) {
                        let w = index_of(es, kk);
                        assert(0 <= w < es.len() && entry_key(es[w]) == kk);
                        assert(w < mid.len());
                        assert(es[w] == mid[w]);
                        assert(has_key(mid, kk));
                        assert(m_mid.contains_key(kk));
                        assert(m0.contains_key(kk));
                        let w2 = index_of(mid, kk);
                        assert(0 <= w2 < mid.len() && entry_key(mid[w2]) == kk);
                        assert(mid[w2] == es[w2]);
                        assert(w2 == w);
                        assert(m_mid[kk] == values_view(mid[w2].values@));
                        assert(self@[kk] == values_view(es[w].values@));
                        assert(m_mid[kk] == m0[kk]);
                        assert(m0.insert(k, vv)[kk] == m0[kk]);
                    }
                    if m0.insert(k, vv).contains_key(kk) {
                        assert(m0.contains_key(kk));
                        assert(m_mid.contains_key(kk));
                        assert(has_key(mid, kk));
                        let w2 = index_of(mid, kk);
                        assert(0 <= w2 < mid.len() && entry_key(mid[w2]) == kk);
                        assert(es[w2] == mid[w2]);
                        assert(has_key(es, kk));
                    }
                }
            });
        }
    }

    /// Drop whatever `name` holds; a name that is absent stays absent.
    pub fn remove(&mut self, name: &HeaderName)
        requires
            old(self).wf(),
        ensures
            final(self).wf(),
            final(self)@ == old(self)@.remove(lower(name@)),
    {
        let mut i: usize = 0;
        while i < self.entries.len()
            invariant
                self.wf(),
                self == old(self),
                i <= self.entries@.len(),
                forall|j: int| 0 <= j < i ==> entry_key(self.entries@[j]) != lower(name@),
            decreases self.entries@.len() - i,
        {
            if eq_ignore_ascii_case(self.entries[i].name.as_str(), name.as_str()) {
                let ghost es0 = self.entries@;
                let ghost m0 = self@;
                self.entries.remove(i);
                proof {
                    let k = lower(name@);
                    let es = self.entries@;
                    assert(es == es0.remove(i as int));
                    assert(entry_key(es0[i as int]) == k);
                    assert forall|j: int| 0 <= j < es.len() implies #[trigger] es[j] == (if j
                        < i as int {
                        es0[j]
                    } else {
                        es0[j + 1]
                    }) by {
                        assert(es == es0.subrange(0, i as int) + es0.subrange(
                            i as int + 1,
                            es0.len() as int,
                        ));
                    }
                    assert(self.wf());
                    assert forall|j: int| 0 <= j < es.len() implies #[trigger] entry_key(es[j])
                        != k by {
                        if j >= i as int {
                            assert(es[j] == es0[j + 1]);
                            assert(entry_key(es0[i as int]) == entry_key(es0[j + 1]) ==> false);
                        }
                    }
                    assert_maps_equal!(self@, m0.remove(k), kk => {
                        if has_key(es, kk) {
                            let w = index_of(es, kk);
                            assert(0 <= w < es.len() && entry_key(es[w]) == kk);
                            assert(kk != k);
                            let w0: int = if w < i as int {
                                w
                            } else {
                                w + 1
                            };
                            assert(es[w] == es0[w0]);
                            assert(entry_key(es0[w0]) == kk);
                            assert(has_key(es0, kk));
                            assert(m0.contains_key(kk));
                            let v0 = index_of(es0, kk);
                            assert(0 <= v0 < es0.len() && entry_key(es0[v0]) == kk);
                            assert(v0 == w0);
                            assert(m0[kk] == values_view(es0[v0].values@));
                            assert(self@[kk] == values_view(es[w].values@));
                            assert(m0.remove(k)[kk] == m0[kk]);
                        }
                        if m0.remove(k).contains_key(kk) {
                            assert(kk != k && m0.contains_key(kk));
                            assert(has_key(es0, kk));
                            let v0 = index_of(es0, kk);
                            assert(0 <= v0 < es0.len() && entry_key(es0[v0]) == kk);
                            assert(v0 != i as int);
                            if v0 < i as int {
                                assert(es[v0] == es0[v0]);
                                assert(has_key(es, kk));
                            } else {
                                assert(es[v0 - 1] == es0[v0]);
                                assert(has_key(es, kk));
                            }
                        }
                    });
                }
                return ;
            }
            i += 1;
        }
        proof {
            assert(!has_key(self.entries@, lower(name@)));
            assert(!self@.contains_key(lower(name@)));
            assert(self@ =~= old(self)@.remove(lower(name@)));
        }
    }
}

/// Whether, in header map `h`, the (case-insensitively looked-up) header
/// `name` holds some value equal to `value` up to ASCII case. A name with no
/// entry, or an entry none of whose values matches, simply does not have the
/// value. This is the primitive every matcher builds on.
pub open spec fn header_has_value(
    h: Map<Seq<char>, Seq<Seq<char>>>,
    name: Seq<char>,
    value: Seq<char>,
) -> bool {
    &&& h.contains_key(lower(name))
    &&& exists|i: int|
        0 <= i < h[lower(name)].len() && str_eq_ci(#[trigger] h[lower(name)][i], value)
}

/// Header-name lookup is case-insensitive: probing with two names that are
/// equal up to ASCII case gives the same answer.
pub proof fn lemma_header_name_case_insensitive(
    h: Map<Seq<char>, Seq<Seq<char>>>,
    n1: Seq<char>,
    n2: Seq<char>,
    v: Seq<char>,
)
    requires
        str_eq_ci(n1, n2),
    ensures
        header_has_value(h, n1, v) == header_has_value(h, n2, v),
{
}

/// Header-value matching is case-insensitive: probing for two values that are
/// equal up to ASCII case gives the same answer.
pub proof fn lemma_header_value_case_insensitive(
    h: Map<Seq<char>, Seq<Seq<char>>>,
    n: Seq<char>,
    v1: Seq<char>,
    v2: Seq<char>,
)
    requires
        str_eq_ci(v1, v2),
    ensures
        header_has_value(h, n, v1) == header_has_value(h, n, v2),
{
    if header_has_value(h, n, v1) {
        let i = choose|i: int|
            0 <= i < h[lower(n)].len() && str_eq_ci(#[trigger] h[lower(n)][i], v1);
        assert(str_eq_ci(h[lower(n)][i], v2));
    }
    if header_has_value(h, n, v2) {
        let i = choose|i: int|
            0 <= i < h[lower(n)].len() && str_eq_ci(#[trigger] h[lower(n)][i], v2);
        assert(str_eq_ci(h[lower(n)][i], v1));
    }
}

/// The well-known `Connection` header name.
pub fn connection() -> (r: HeaderName)
    ensures
        r@ == "connection"@,
{
    HeaderName { name: connection_name() }
}

/// The well-known `Upgrade` header name.
pub fn upgrade() -> (r: HeaderName)
    ensures
        r@ == "upgrade"@,
{
    HeaderName { name: upgrade_name() }
}

/// Relies on `http_types::headers::HeaderName::from_string`: it returns the
/// ASCII-lowercased input exactly when the input is ASCII, and an error
/// otherwise.
#[verifier::external_body]
fn parse_header_name(s: &str) -> (r: Result<String, http_types::Error>)
    ensures
        is_ascii_chars(s@) <==> r is Ok,
        r is Ok ==> r->Ok_0@ == lower(s@),
{
    match http_types::headers::HeaderName::from_string(s.to_owned()) {
        Ok(name) => Ok(name.as_str().to_owned()),
        Err(e) => Err(e),
    }
}

/// Relies on `http_types::headers::HeaderValue`'s `FromStr`: it returns the
/// input unchanged exactly when the input is ASCII, and an error otherwise.
#[verifier::external_body]
fn parse_header_value(s: &str) -> (r: Result<String, http_types::Error>)
    ensures
        is_ascii_chars(s@) <==> r is Ok,
        r is Ok ==> r->Ok_0@ == s@,
{
    match <http_types::headers::HeaderValue as core::str::FromStr>::from_str(s) {
        Ok(value) => Ok(value.as_str().to_owned()),
        Err(e) => Err(e),
    }
}

/// Relies on `http_types::headers::CONNECTION`: the well-known `Connection`
/// header name, whose stored form is the string `connection`.
#[verifier::external_body]
fn connection_name() -> (r: String)
    ensures
        r@ == "connection"@,
{
    http_types::headers::CONNECTION.as_str().to_owned()
}

/// Relies on `http_types::headers::UPGRADE`: the well-known `Upgrade` header
/// name, whose stored form is the string `upgrade`.
#[verifier::external_body]
fn upgrade_name() -> (r: String)
    ensures
        r@ == "upgrade"@,
{
    http_types::headers::UPGRADE.as_str().to_owned()
}

/// Relies on `http_types::Error`, the error type of the header parsers; the
/// crate carries such a value through and never reads it.
#[verifier::external_type_specification]
#[verifier::external_body]
pub struct ExHttpError(http_types::Error);

} // verus!
