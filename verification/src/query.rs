//! Query parameters: ordered key-value pairs with first-match lookup,
//! parsed from a url query string or a form body.

use vstd::prelude::*;

use crate::encoding;
use crate::text;

verus! {

/// Collection of query parameters, in the order they appear.  Duplicate
/// keys are allowed; lookups return the first match.
#[derive(Debug, Clone)]
pub struct Query(pub Vec<(String, String)>);

/// The first index of `q` holding the key `key`, if any.
pub open spec fn spec_query_index(q: Seq<(Seq<char>, Seq<char>)>, key: Seq<char>) -> Option<int>
    decreases q.len(),
{
    if q.len() == 0 {
        None
    } else if q[0].0 == key {
        Some(0)
    } else {
        match spec_query_index(q.drop_first(), key) {
            None => None,
            Some(i) => Some(i + 1),
        }
    }
}

/// `spec_query_index` finds the least matching index, and `None` exactly
/// when no pair matches.
pub proof fn lemma_query_index(q: Seq<(Seq<char>, Seq<char>)>, key: Seq<char>)
    ensures
        match spec_query_index(q, key) {
            Some(i) => 0 <= i < q.len() && q[i].0 == key && (forall|j: int|
                0 <= j < i ==> q[j].0 != key),
            None => forall|j: int| 0 <= j < q.len() ==> q[j].0 != key,
        },
    decreases q.len(),
{
    if q.len() > 0 && q[0].0 != key {
        lemma_query_index(q.drop_first(), key);
        assert forall|j: int| 1 <= j < q.len() implies q[j] == q.drop_first()[j - 1] by {}
    }
}

/// What one `key=value` part of a query string turns into: both sides url
/// decoded, with the raw text kept wherever its decode fails.  A part
/// without `=` is skipped.
pub open spec fn spec_query_pair(part: Seq<char>) -> Option<(Seq<char>, Seq<char>)> {
    match text::spec_split2(part, "="@) {
        (_, Option::None) => None,
        (k, Option::Some(v)) => Some(
            (
                match encoding::spec_decode(k) {
                    Some(d) => d,
                    None => k,
                },
                match encoding::spec_decode(v) {
                    Some(d) => d,
                    None => v,
                },
            ),
        ),
    }
}

/// The pairs of a whole query or form body: its `&`-separated parts, each
/// read by [`spec_query_pair`], parts without `=` skipped.
pub open spec fn spec_query_pairs(parts: Seq<Seq<char>>) -> Seq<(Seq<char>, Seq<char>)>
    decreases parts.len(),
{
    if parts.len() == 0 {
        Seq::empty()
    } else {
        match spec_query_pair(parts[0]) {
            None => spec_query_pairs(parts.drop_first()),
            Some(p) => seq![p] + spec_query_pairs(parts.drop_first()),
        }
    }
}

/// The query that a body or query string parses to.
pub open spec fn spec_query_from(s: Seq<char>) -> Seq<(Seq<char>, Seq<char>)> {
    spec_query_pairs(text::spec_split(s, "&"@))
}

impl Query {
    /// An empty query.
    pub fn new_empty() -> (r: Query)
        ensures
            r.0@.len() == 0,
    {
        Query(Vec::new())
    }

    /// The first index holding the key `key`, if any.
    #[verifier::loop_isolation(false)]
    pub fn index_of(&self, key: &str) -> (r: Option<usize>)
        ensures
            match r {
                Some(i) => spec_query_index(self.0.deep_view(), key@) == Some(i as int),
                None => spec_query_index(self.0.deep_view(), key@) is None,
            },
    {
        proof {
            lemma_query_index(self.0.deep_view(), key@);
        }
        let mut i: usize = 0;
        while i < self.0.len()
            invariant
                i <= self.0@.len(),
                forall|j: int| 0 <= j < i ==> self.0.deep_view()[j].0 != key@,
                spec_query_index(self.0.deep_view(), key@) matches Some(k) ==> i <= k,
            decreases self.0@.len() - i,
        {
            proof {
                assert(self.0.deep_view()[i as int] == (self.0@[i as int].0@, self.0@[i as int].1@));
            }
            if text::str_eq(self.0[i].0.as_str(), key) {
                return Some(i);
            }
            i = i + 1;
        }
        None
    }

    /// Whether the key exists in the query.
    pub fn has(&self, key: &str) -> (r: bool)
        ensures
            r == (spec_query_index(self.0.deep_view(), key@) is Some),
    {
        self.index_of(key).is_some()
    }

    /// Appends a key-value pair.
    pub fn add(&mut self, key: &str, value: &str)
        ensures
            final(self).0.deep_view() == old(self).0.deep_view().push((key@, value@)),
    {
        self.0.push((key.to_owned(), value.to_owned()));
        proof {
            assert(self.0.deep_view() =~= old(self).0.deep_view().push((key@, value@)));
        }
    }

    /// The value under the first occurrence of `key`, if any.
    pub fn get(&self, key: &str) -> (r: Option<&str>)
        ensures
            match r {
                Some(v) => spec_query_index(self.0.deep_view(), key@) matches Some(i) && v@
                    == self.0.deep_view()[i].1,
                None => spec_query_index(self.0.deep_view(), key@) is None,
            },
    {
        proof {
            lemma_query_index(self.0.deep_view(), key@);
        }
        match self.index_of(key) {
            Some(i) => {
                proof {
                    assert(self.0.deep_view()[i as int] == (
                        self.0@[i as int].0@,
                        self.0@[i as int].1@,
                    ));
                }
                Some(self.0[i].1.as_str())
            },
            None => None,
        }
    }

    /// The value under the first occurrence of `key`, as a mutable
    /// reference.
    pub fn get_mut(&mut self, key: &str) -> (r: Option<&mut String>)
        ensures
            match r {
                Some(m) => spec_query_index(old(self).0.deep_view(), key@) matches Some(i) && *m
                    == old(self).0@[i].1 && final(self).0@ == old(self).0@.update(
                    i,
                    (old(self).0@[i].0, *final(m)),
                ),
                None => spec_query_index(old(self).0.deep_view(), key@) is None && *final(self)
                    == *old(self),
            },
    {
        proof {
            lemma_query_index(self.0.deep_view(), key@);
        }
        match self.index_of(key) {
            Some(i) => {
                proof {
                    assert(self.0.deep_view()[i as int] == (
                        self.0@[i as int].0@,
                        self.0@[i as int].1@,
                    ));
                }
                Some(&mut self.0[i].1)
            },
            None => None,
        }
    }

    /// Appends a key-value pair given as one tuple.
    pub fn add_query(&mut self, query: (String, String))
        ensures
            final(self).0@ == old(self).0@.push(query),
    {
        self.0.push(query);
    }

    /// The whole pair under the first occurrence of `key`, if any.
    pub fn get_query(&self, key: &str) -> (r: Option<&(String, String)>)
        ensures
            match r {
                Some(p) => spec_query_index(self.0.deep_view(), key@) matches Some(i) && *p
                    == self.0@[i],
                None => spec_query_index(self.0.deep_view(), key@) is None,
            },
    {
        proof {
            lemma_query_index(self.0.deep_view(), key@);
        }
        match self.index_of(key) {
            Some(i) => Some(&self.0[i]),
            None => None,
        }
    }

    /// The whole pair under the first occurrence of `key`, as a mutable
    /// reference.
    pub fn get_query_mut(&mut self, key: &str) -> (r: Option<&mut (String, String)>)
        ensures
            match r {
                Some(m) => spec_query_index(old(self).0.deep_view(), key@) matches Some(i) && *m
                    == old(self).0@[i] && final(self).0@ == old(self).0@.update(i, *final(m)),
                None => spec_query_index(old(self).0.deep_view(), key@) is None && *final(self)
                    == *old(self),
            },
    {
        proof {
            lemma_query_index(self.0.deep_view(), key@);
        }
        match self.index_of(key) {
            Some(i) => Some(&mut self.0[i]),
            None => None,
        }
    }

    /// Reads a query from a form body such as `foo=bar&nose=dog`.  Each
    /// `&`-separated part contributes its pair; a part without `=` is
    /// skipped, and a side whose url decode fails is kept as written.
    pub fn from_body(body: &str) -> (r: Query)
        ensures
            r.0.deep_view() == spec_query_from(body@),
    {
        let chars = text::chars_of(body);
        Query(query_pairs_of(&chars))
    }
}

/// How one pair is written in a query string: `key=value`.
pub open spec fn spec_pair_text(p: (Seq<char>, Seq<char>)) -> Seq<char> {
    p.0 + "="@ + p.1
}

/// The pairs of a query joined with `&`.
pub open spec fn spec_pairs_text(q: Seq<(Seq<char>, Seq<char>)>) -> Seq<char>
    decreases q.len(),
{
    if q.len() == 0 {
        Seq::empty()
    } else if q.len() == 1 {
        spec_pair_text(q[0])
    } else {
        spec_pairs_text(q.drop_last()) + "&"@ + spec_pair_text(q.last())
    }
}

/// A whole query as it is written in a url: empty when it has no pairs,
/// else a `?` followed by the `&`-joined pairs.
pub open spec fn spec_query_text(q: Seq<(Seq<char>, Seq<char>)>) -> Seq<char> {
    if q.len() == 0 {
        Seq::empty()
    } else {
        "?"@ + spec_pairs_text(q)
    }
}

impl Query {
    /// Renders the query as it would stand in a url.
    #[verifier::loop_isolation(false)]
    pub fn to_query_string(&self) -> (r: String)
        ensures
            r@ == spec_query_text(self.0.deep_view()),
    {
        if self.0.len() == 0 {
            return String::new();
        }
        let ghost q = self.0.deep_view();
        let mut out = String::new();
        out.append("?");
        let mut i: usize = 0;
        while i < self.0.len()
            invariant
                i <= self.0@.len(),
                out@ == "?"@ + spec_pairs_text(q.take(i as int)),
            decreases self.0@.len() - i,
        {
            proof {
                assert(self.0.deep_view()[i as int] == (self.0@[i as int].0@, self.0@[i as int].1@));
            }
            if i > 0 {
                out.append("&");
            }
            out.append(self.0[i].0.as_str());
            out.append("=");
            out.append(self.0[i].1.as_str());
            proof {
                assert(q.take(i + 1).drop_last() =~= q.take(i as int));
                assert(q.take(i + 1).last() == q[i as int]);
                if i == 0 {
                    assert(out@ =~= "?"@ + spec_pairs_text(q.take(1int)));
                } else {
                    assert(out@ =~= "?"@ + spec_pairs_text(q.take(i + 1)));
                }
            }
            i = i + 1;
        }
        proof {
            assert(q.take(q.len() as int) =~= q);
        }
        out
    }
}

/// Reads the `&`-separated, url decoded pairs of a query string.
#[verifier::loop_isolation(false)]
pub fn query_pairs_of(chars: &Vec<char>) -> (r: Vec<(String, String)>)
    ensures
        r.deep_view() == spec_query_from(chars@),
{
    let amp: Vec<char> = vec!['&'];
    let eq: Vec<char> = vec!['='];
    proof {
        reveal_strlit("&");
        reveal_strlit("=");
        assert(amp@ =~= "&"@);
        assert(eq@ =~= "="@);
    }
    let parts = text::split_on(chars, &amp);
    let ghost all = parts.deep_view();
    let mut out: Vec<(String, String)> = Vec::new();
    let mut i: usize = 0;
    proof {
        assert(all.skip(0int) =~= all);
    }
    while i < parts.len()
        invariant
            i <= parts@.len(),
            spec_query_pairs(all) == out.deep_view() + spec_query_pairs(all.skip(i as int)),
        decreases parts@.len() - i,
    {
        let ghost rest = all.skip(i as int);
        proof {
            text::lemma_deep_index(&parts, i as int);
            assert(rest[0] == all[i as int]);
            assert(rest[0] == parts@[i as int]@);
            assert(rest.drop_first() =~= all.skip(i + 1));
        }
        let (k, v_opt) = text::split2_on(&parts[i], &eq);
        match v_opt {
            Option::None => {},
            Option::Some(v) => {
                let key = match encoding::decode_chars(&k) {
                    Some(d) => text::string_of(&d),
                    None => text::string_of(&k),
                };
                let value = match encoding::decode_chars(&v) {
                    Some(d) => text::string_of(&d),
                    None => text::string_of(&v),
                };
                out.push((key, value));
            },
        }
        proof {
            assert(out.deep_view() + spec_query_pairs(all.skip(i + 1)) =~= spec_query_pairs(all));
        }
        i = i + 1;
    }
    proof {
        assert(all.skip(parts@.len() as int) =~= Seq::<Seq<char>>::empty());
        assert(out.deep_view() + spec_query_pairs(Seq::<Seq<char>>::empty()) =~= out.deep_view());
    }
    out
}

} // verus!
