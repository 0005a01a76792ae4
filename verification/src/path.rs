//! Route path patterns: compilation into segments and matching against
//! request paths, with named-parameter capture and a wildcard suffix.

use vstd::prelude::*;

use crate::text;

verus! {

/// One segment of a compiled route path.
#[derive(Debug, Clone, PartialEq)]
pub enum PathPart {
    /// A literal segment, matched by string equality.
    Normal(String),
    /// A named parameter: matches one segment and captures it.
    Pram(String),
    /// A wildcard: matches one segment and captures nothing.  As the last
    /// segment of a pattern it matches the whole remainder of the path.
    Any,
}

/// The mathematical shape of a [`PathPart`].
pub enum SpecPart {
    /// A literal segment.
    Normal(Seq<char>),
    /// A named parameter.
    Pram(Seq<char>),
    /// A wildcard.
    Any,
}

/// The model of one compiled segment.
pub open spec fn part_model(p: PathPart) -> SpecPart {
    match p {
        PathPart::Normal(s) => SpecPart::Normal(s@),
        PathPart::Pram(s) => SpecPart::Pram(s@),
        PathPart::Any => SpecPart::Any,
    }
}

/// The model of a compiled segment list.
pub open spec fn parts_model(ps: Seq<PathPart>) -> Seq<SpecPart> {
    ps.map_values(|p: PathPart| part_model(p))
}

/// How one segment of a route path compiles: `*` is a wildcard, `{name}`
/// is a named parameter, and anything else is a literal.
pub open spec fn spec_part_from(seg: Seq<char>) -> SpecPart {
    if seg == "*"@ {
        SpecPart::Any
    } else if seg.len() >= 2 && seg[0] == '{' && seg.last() == '}' {
        SpecPart::Pram(seg.subrange(1, seg.len() - 1))
    } else {
        SpecPart::Normal(seg)
    }
}

/// Normalization of a route path before compilation: one trailing slash is
/// dropped when that is configured, and a leading slash is added if it is
/// missing.
pub open spec fn spec_normalize_opt(s: Seq<char>, strip_trailing_slash: bool) -> Seq<char> {
    let t = if strip_trailing_slash && s.len() > 0 && s.last() == '/' {
        s.drop_last()
    } else {
        s
    };
    if t.len() == 0 || t[0] != '/' {
        seq!['/'] + t
    } else {
        t
    }
}

/// The default normalization: the trailing slash is stripped.
pub open spec fn spec_normalize(s: Seq<char>) -> Seq<char> {
    spec_normalize_opt(s, true)
}

/// The compiled segments of a normalized route path.
pub open spec fn spec_compile(s: Seq<char>) -> Seq<SpecPart> {
    text::spec_split(s, "/"@).map_values(|seg: Seq<char>| spec_part_from(seg))
}

/// Pairwise matching of equally many pattern segments and path segments.
/// `Normal` needs equality, `Pram` captures, `Any` matches anything.
pub open spec fn spec_match_pairs(parts: Seq<SpecPart>, segs: Seq<Seq<char>>) -> Option<
    Seq<(Seq<char>, Seq<char>)>,
>
    decreases parts.len(),
{
    if parts.len() != segs.len() {
        None
    } else if parts.len() == 0 {
        Some(Seq::empty())
    } else {
        match spec_match_pairs(parts.drop_first(), segs.drop_first()) {
            None => None,
            Some(t) => match parts[0] {
                SpecPart::Normal(x) => if segs[0] == x {
                    Some(t)
                } else {
                    None
                },
                SpecPart::Pram(x) => Some(seq![(x, segs[0])] + t),
                SpecPart::Any => Some(t),
            },
        }
    }
}

/// Matching a whole request path against a compiled pattern.  A pattern
/// ending in a wildcard matches any path with at least the preceding
/// segments; any other pattern needs exactly as many segments as it has.
pub open spec fn spec_match_path(parts: Seq<SpecPart>, path: Seq<char>) -> Option<
    Seq<(Seq<char>, Seq<char>)>,
> {
    let segs = text::spec_split(path, "/"@);
    if parts.len() > 0 && parts.last() is Any {
        if segs.len() >= parts.len() - 1 {
            spec_match_pairs(parts.drop_last(), segs.take(parts.len() - 1))
        } else {
            None
        }
    } else {
        if segs.len() == parts.len() {
            spec_match_pairs(parts, segs)
        } else {
            None
        }
    }
}

impl PathPart {
    /// Compiles one segment of a route path.
    pub fn from_segment(seg: &str) -> (r: PathPart)
        ensures
            part_model(r) == spec_part_from(seg@),
    {
        let chars = text::chars_of(seg);
        PathPart::from_chars(&chars)
    }

    /// As [`PathPart::from_segment`], over characters.
    pub fn from_chars(v: &Vec<char>) -> (r: PathPart)
        ensures
            part_model(r) == spec_part_from(v@),
    {
        if text::chars_eq_str(v, "*") {
            return PathPart::Any;
        }
        if v.len() >= 2 && v[0] == '{' && v[v.len() - 1] == '}' {
            let inner = text::subvec(v, 1, v.len() - 1);
            return PathPart::Pram(text::string_of(&inner));
        }
        PathPart::Normal(text::string_of(v))
    }
}

/// A compiled route path: the normalized text it was made from, and its
/// segments.
#[derive(Debug, Clone, PartialEq)]
pub struct Path {
    /// The normalized path text.
    pub raw: String,
    /// The compiled segments.
    pub parts: Vec<PathPart>,
}

impl Path {
    /// Compiles a route path with the default normalization: one trailing
    /// slash is stripped, a leading slash is added if missing.
    pub fn new(path: &str) -> (r: Path)
        ensures
            r.raw@ == spec_normalize(path@),
            parts_model(r.parts@) == spec_compile(spec_normalize(path@)),
    {
        Path::new_with(path, true)
    }

    /// Compiles a route path; whether one trailing slash is ignored is the
    /// caller's configuration.
    #[verifier::loop_isolation(false)]
    pub fn new_with(path: &str, strip_trailing_slash: bool) -> (r: Path)
        ensures
            r.raw@ == spec_normalize_opt(path@, strip_trailing_slash),
            parts_model(r.parts@) == spec_compile(spec_normalize_opt(path@, strip_trailing_slash)),
    {
        let mut chars = text::chars_of(path);
        if strip_trailing_slash && chars.len() > 0 && chars[chars.len() - 1] == '/' {
            chars.pop();
            proof {
                assert(chars@ =~= path@.drop_last());
            }
        }
        let normalized: Vec<char> = if chars.len() == 0 || chars[0] != '/' {
            let mut n: Vec<char> = Vec::new();
            n.push('/');
            let mut k: usize = 0;
            while k < chars.len()
                invariant
                    k <= chars@.len(),
                    n@ == seq!['/'] + chars@.take(k as int),
                decreases chars@.len() - k,
            {
                n.push(chars[k]);
                proof {
                    assert(n@ =~= seq!['/'] + chars@.take(k + 1));
                }
                k = k + 1;
            }
            proof {
                assert(chars@.take(chars@.len() as int) =~= chars@);
            }
            n
        } else {
            chars
        };
        proof {
            assert(normalized@ == spec_normalize_opt(path@, strip_trailing_slash));
        }
        let slash: Vec<char> = vec!['/'];
        proof {
            reveal_strlit("/");
            assert(slash@ =~= "/"@);
        }
        let segs = text::split_on(&normalized, &slash);
        let mut parts: Vec<PathPart> = Vec::new();
        let mut i: usize = 0;
        while i < segs.len()
            invariant
                i <= segs@.len(),
                parts@.len() == i,
                forall|j: int|
                    0 <= j < i ==> part_model(parts@[j]) == spec_part_from(segs.deep_view()[j]),
            decreases segs@.len() - i,
        {
            proof {
                text::lemma_deep_index(&segs, i as int);
            }
            parts.push(PathPart::from_chars(&segs[i]));
            i = i + 1;
        }
        proof {
            assert(parts_model(parts@) =~= segs.deep_view().map_values(
                |seg: Seq<char>| spec_part_from(seg),
            ));
        }
        Path { raw: text::string_of(&normalized), parts }
    }

    /// Matches a request path against this pattern, yielding the captured
    /// parameters on success.
    #[verifier::loop_isolation(false)]
    pub fn match_path(&self, path: String) -> (r: Option<Vec<(String, String)>>)
        ensures
            match r {
                Some(caps) => spec_match_path(parts_model(self.parts@), path@) == Some(
                    caps.deep_view(),
                ),
                None => spec_match_path(parts_model(self.parts@), path@) is None,
            },
    {
        let chars = text::chars_of(path.as_str());
        let slash: Vec<char> = vec!['/'];
        proof {
            reveal_strlit("/");
            assert(slash@ =~= "/"@);
        }
        let segs = text::split_on(&chars, &slash);
        let ghost pm = parts_model(self.parts@);
        let ghost sm = segs.deep_view();
        let n = self.parts.len();
        let wildcard_tail = n > 0 && matches!(self.parts[n - 1], PathPart::Any);
        let limit: usize = if wildcard_tail {
            if segs.len() < n - 1 {
                return None;
            }
            n - 1
        } else {
            if segs.len() != n {
                return None;
            }
            n
        };
        let ghost gparts = if wildcard_tail {
            pm.drop_last()
        } else {
            pm
        };
        let ghost gsegs = if wildcard_tail {
            sm.take(n - 1)
        } else {
            sm
        };
        proof {
            assert(gparts.len() == limit);
            assert(gsegs.len() == limit);
        }
        let mut caps: Vec<(String, String)> = Vec::new();
        let mut i: usize = 0;
        proof {
            assert(gparts.skip(0int) =~= gparts);
            assert(gsegs.skip(0int) =~= gsegs);
        }
        while i < limit
            invariant
                i <= limit,
                spec_match_pairs(gparts, gsegs) == match spec_match_pairs(
                    gparts.skip(i as int),
                    gsegs.skip(i as int),
                ) {
                    None => None::<Seq<(Seq<char>, Seq<char>)>>,
                    Some(t) => Some(caps.deep_view() + t),
                },
            decreases limit - i,
        {
            let ghost caps0 = caps.deep_view();
            proof {
                assert(gparts.skip(i as int).drop_first() =~= gparts.skip(i + 1));
                assert(gsegs.skip(i as int).drop_first() =~= gsegs.skip(i + 1));
                assert(gparts.skip(i as int)[0] == gparts[i as int]);
                assert(gsegs.skip(i as int)[0] == gsegs[i as int]);
                assert(gparts[i as int] == pm[i as int]);
                assert(gsegs[i as int] == sm[i as int]);
                assert(pm[i as int] == part_model(self.parts@[i as int]));
                text::lemma_deep_index(&segs, i as int);
            }
            match &self.parts[i] {
                PathPart::Normal(x) => {
                    if !text::chars_eq_str(&segs[i], x.as_str()) {
                        proof {
                            assert(spec_match_pairs(gparts.skip(i as int), gsegs.skip(i as int))
                                is None);
                        }
                        return None;
                    }
                },
                PathPart::Pram(x) => {
                    caps.push((x.clone(), text::string_of(&segs[i])));
                    proof {
                        assert(caps.deep_view() =~= caps0.push((x@, sm[i as int])));
                        if let Some(t) = spec_match_pairs(gparts.skip(i + 1), gsegs.skip(i + 1)) {
                            assert(caps.deep_view() + t =~= caps0 + (seq![(x@, sm[i as int])] + t));
                        }
                    }
                },
                PathPart::Any => {},
            }
            i = i + 1;
        }
        proof {
            assert(gparts.skip(limit as int) =~= Seq::<SpecPart>::empty());
            assert(gsegs.skip(limit as int) =~= Seq::<Seq<char>>::empty());
            assert(caps.deep_view() + Seq::<(Seq<char>, Seq<char>)>::empty() =~= caps.deep_view());
        }
        Some(caps)
    }
}

} // verus!
