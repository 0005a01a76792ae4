//! Verified text utilities: conversions between `String`, `&str` and
//! `Vec<char>`, searching, splitting, trimming and decimal formatting.
//!
//! All parsing in this crate works over `Vec<char>` values whose views are
//! `Seq<char>`, so every contract can speak the same language as the views
//! of `String` and `&str`.

use vstd::prelude::*;

verus! {

/// The needle occurs in the haystack at position `i`.
pub open spec fn find_at(hay: Seq<char>, needle: Seq<char>, i: int) -> bool {
    &&& 0 <= i
    &&& i + needle.len() <= hay.len()
    &&& hay.subrange(i, i + needle.len() as int) == needle
}

/// Position of the first occurrence of `needle` in `hay`, if any.
pub open spec fn spec_find_sub(hay: Seq<char>, needle: Seq<char>) -> Option<int>
    decreases hay.len(),
{
    if needle.len() == 0 {
        Some(0)
    } else if hay.len() < needle.len() {
        None
    } else if hay.take(needle.len() as int) == needle {
        Some(0)
    } else {
        match spec_find_sub(hay.drop_first(), needle) {
            None => None,
            Some(i) => Some(i + 1),
        }
    }
}

/// `spec_find_sub` returns the least position where the needle occurs, and
/// `None` exactly when it occurs nowhere.
pub proof fn lemma_find_sub(hay: Seq<char>, needle: Seq<char>)
    requires
        needle.len() >= 1,
    ensures
        match spec_find_sub(hay, needle) {
            Some(i) => find_at(hay, needle, i) && (forall|j: int|
                0 <= j < i ==> !find_at(hay, needle, j)),
            None => forall|j: int| !find_at(hay, needle, j),
        },
    decreases hay.len(),
{
    if hay.len() < needle.len() {
        assert(forall|j: int| !find_at(hay, needle, j));
    } else if hay.take(needle.len() as int) == needle {
        assert(hay.subrange(0, needle.len() as int) =~= hay.take(needle.len() as int));
    } else {
        lemma_find_sub(hay.drop_first(), needle);
        let tail = hay.drop_first();
        assert forall|j: int| 1 <= j implies find_at(hay, needle, j) == find_at(
            tail,
            needle,
            j - 1,
        ) by {
            if 0 <= j - 1 && j - 1 + needle.len() <= tail.len() {
                assert(hay.subrange(j, j + needle.len() as int) =~= tail.subrange(
                    j - 1,
                    j - 1 + needle.len() as int,
                ));
            }
        }
        assert(!find_at(hay, needle, 0)) by {
            if find_at(hay, needle, 0) {
                assert(hay.subrange(0, needle.len() as int) =~= hay.take(needle.len() as int));
            }
        }
    }
}

/// If an occurrence at `i` is the least one, `spec_find_sub` returns it.
pub proof fn lemma_find_sub_is(hay: Seq<char>, needle: Seq<char>, i: int)
    requires
        needle.len() >= 1,
        find_at(hay, needle, i),
        forall|j: int| 0 <= j < i ==> !find_at(hay, needle, j),
    ensures
        spec_find_sub(hay, needle) == Some(i),
{
    lemma_find_sub(hay, needle);
    match spec_find_sub(hay, needle) {
        Some(k) => {
            if k < i {
                assert(!find_at(hay, needle, k));
            }
            if i < k {
                assert(!find_at(hay, needle, i));
            }
        },
        None => {
            assert(!find_at(hay, needle, i));
        },
    }
}

/// If the needle occurs nowhere, `spec_find_sub` returns `None`.
pub proof fn lemma_find_sub_none(hay: Seq<char>, needle: Seq<char>)
    requires
        needle.len() >= 1,
        forall|j: int| !find_at(hay, needle, j),
    ensures
        spec_find_sub(hay, needle) is None,
{
    lemma_find_sub(hay, needle);
    if let Some(i) = spec_find_sub(hay, needle) {
        assert(!find_at(hay, needle, i));
    }
}

/// Relies on `String::push`: appends one character at the end of the string.
#[verifier::external_body]
pub fn push_char(s: &mut String, c: char)
    ensures
        final(s)@ == old(s)@.push(c),
{
    s.push(c);
}

/// Relies on `String::from_utf8`: succeeds exactly on valid UTF-8 bytes,
/// and then returns the string those bytes encode.
#[verifier::external_body]
pub fn string_from_utf8(v: Vec<u8>) -> (r: Option<String>)
    ensures
        match r {
            Some(s) => vstd::utf8::valid_utf8(v@) && s@ == vstd::utf8::decode_utf8(v@),
            None => !vstd::utf8::valid_utf8(v@),
        },
{
    String::from_utf8(v).ok()
}

/// Copies a byte vector.
#[verifier::loop_isolation(false)]
pub fn copy_bytes(v: &Vec<u8>) -> (r: Vec<u8>)
    ensures
        r@ == v@,
{
    let mut r: Vec<u8> = Vec::new();
    let mut i: usize = 0;
    while i < v.len()
        invariant
            i <= v@.len(),
            r@ == v@.take(i as int),
        decreases v@.len() - i,
    {
        r.push(v[i]);
        proof {
            assert(r@ =~= v@.take(i + 1));
        }
        i = i + 1;
    }
    proof {
        assert(r@ =~= v@);
    }
    r
}

/// Copies the characters of a string slice into a vector.
pub fn chars_of(s: &str) -> (r: Vec<char>)
    ensures
        r@ == s@,
{
    let n = s.unicode_len();
    let mut r: Vec<char> = Vec::new();
    let mut i: usize = 0;
    while i < n
        invariant
            n == s@.len(),
            i <= n,
            r@ == s@.take(i as int),
        decreases n - i,
    {
        r.push(s.get_char(i));
        proof {
            assert(r@ =~= s@.take(i + 1));
        }
        i = i + 1;
    }
    proof {
        assert(r@ =~= s@);
    }
    r
}

/// Builds a `String` out of a sequence of characters.
pub fn string_of(v: &Vec<char>) -> (r: String)
    ensures
        r@ == v@,
{
    let mut r = String::new();
    let mut i: usize = 0;
    while i < v.len()
        invariant
            i <= v@.len(),
            r@ == v@.take(i as int),
        decreases v@.len() - i,
    {
        push_char(&mut r, v[i]);
        proof {
            assert(r@ =~= v@.take(i + 1));
        }
        i = i + 1;
    }
    proof {
        assert(r@ =~= v@);
    }
    r
}

/// Copies the range `[from, to)` of a character vector.
pub fn subvec(v: &Vec<char>, from: usize, to: usize) -> (r: Vec<char>)
    requires
        from <= to <= v@.len(),
    ensures
        r@ == v@.subrange(from as int, to as int),
{
    let mut r: Vec<char> = Vec::new();
    let mut i: usize = from;
    while i < to
        invariant
            from <= i <= to <= v@.len(),
            r@ == v@.subrange(from as int, i as int),
        decreases to - i,
    {
        r.push(v[i]);
        proof {
            assert(r@ =~= v@.subrange(from as int, i + 1));
        }
        i = i + 1;
    }
    r
}

/// Whether `needle` occurs in `v` at exactly position `at`.
#[verifier::loop_isolation(false)]
fn matches_at(v: &Vec<char>, at: usize, needle: &Vec<char>) -> (r: bool)
    requires
        at <= v@.len(),
    ensures
        r == find_at(v@, needle@, at as int),
{
    if v.len() - at < needle.len() {
        return false;
    }
    let mut i: usize = 0;
    while i < needle.len()
        invariant
            at + needle@.len() <= v@.len(),
            i <= needle@.len(),
            forall|j: int| 0 <= j < i ==> v@[at + j] == needle@[j],
        decreases needle@.len() - i,
    {
        proof {
            assert(at + i < v@.len());
        }
        if v[at + i] != needle[i] {
            proof {
                assert(!find_at(v@, needle@, at as int)) by {
                    if find_at(v@, needle@, at as int) {
                        assert(v@.subrange(at as int, at + needle@.len() as int)[i as int]
                            == needle@[i as int]);
                    }
                }
            }
            return false;
        }
        i = i + 1;
    }
    proof {
        assert(v@.subrange(at as int, at + needle@.len() as int) =~= needle@);
    }
    true
}

/// Position of the first occurrence of `needle` at or after `from`.
#[verifier::loop_isolation(false)]
fn find_sub_from(v: &Vec<char>, from: usize, needle: &Vec<char>) -> (r: Option<usize>)
    requires
        from <= v@.len(),
        needle@.len() >= 1,
    ensures
        match r {
            Some(i) => from <= i && find_at(v@, needle@, i as int) && (forall|j: int|
                from <= j < i ==> !find_at(v@, needle@, j)),
            None => forall|j: int| from <= j ==> !find_at(v@, needle@, j),
        },
{
    let mut i: usize = from;
    while i < v.len()
        invariant
            from <= i,
            needle@.len() >= 1,
            forall|j: int| from <= j < i ==> !find_at(v@, needle@, j),
        decreases v@.len() - i,
    {
        if matches_at(v, i, needle) {
            return Some(i);
        }
        i = i + 1;
    }
    None
}

/// Splitting a string on a separator string: the pieces between the
/// occurrences of the separator, in order.  Splitting never yields an empty
/// sequence of pieces: a string without the separator is one piece.
pub open spec fn spec_split(s: Seq<char>, sep: Seq<char>) -> Seq<Seq<char>>
    decreases s.len(),
    via spec_split_decreases
{
    if sep.len() == 0 {
        seq![s]
    } else {
        match spec_find_sub(s, sep) {
            None => seq![s],
            Some(i) => seq![s.take(i)] + spec_split(s.skip(i + sep.len()), sep),
        }
    }
}

#[via_fn]
proof fn spec_split_decreases(s: Seq<char>, sep: Seq<char>) {
    if sep.len() > 0 {
        lemma_find_sub(s, sep);
    }
}

/// The split of a string on a separator it does not contain is the string
/// itself.
pub proof fn lemma_split_whole(s: Seq<char>, sep: Seq<char>)
    requires
        sep.len() >= 1,
        forall|j: int| !find_at(s, sep, j),
    ensures
        spec_split(s, sep) == seq![s],
{
    lemma_find_sub_none(s, sep);
}

/// Splits `v` on every occurrence of `sep`.
#[verifier::loop_isolation(false)]
pub fn split_on(v: &Vec<char>, sep: &Vec<char>) -> (r: Vec<Vec<char>>)
    requires
        sep@.len() >= 1,
    ensures
        r.deep_view() == spec_split(v@, sep@),
        r@.len() >= 1,
{
    let n = v.len();
    let mut r: Vec<Vec<char>> = Vec::new();
    let mut pos: usize = 0;
    proof {
        assert(n == v@.len());
        assert(v@.skip(0) =~= v@);
        assert(r.deep_view() + spec_split(v@, sep@) =~~= spec_split(v@, sep@));
    }
    loop
        invariant
            sep@.len() >= 1,
            pos <= v@.len(),
            spec_split(v@, sep@) == r.deep_view() + spec_split(v@.skip(pos as int), sep@),
        decreases v@.len() - pos,
    {
        let ghost rest = v@.skip(pos as int);
        match find_sub_from(v, pos, sep) {
            None => {
                proof {
                    assert forall|j: int| !find_at(rest, sep@, j) by {
                        if 0 <= j && j + sep@.len() <= rest.len() {
                            assert(rest.subrange(j, j + sep@.len() as int) =~= v@.subrange(
                                pos + j,
                                pos + j + sep@.len() as int,
                            ));
                            assert(!find_at(v@, sep@, pos + j));
                        }
                    }
                    lemma_split_whole(rest, sep@);
                }
                let last = subvec(v, pos, v.len());
                r.push(last);
                proof {
                    assert(last@ =~= rest);
                    assert(r.deep_view() =~~= spec_split(v@, sep@));
                }
                return r;
            },
            Some(i) => {
                proof {
                    assert(find_at(rest, sep@, i - pos)) by {
                        assert(rest.subrange(i - pos, i - pos + sep@.len() as int) =~= v@.subrange(
                            i as int,
                            i + sep@.len() as int,
                        ));
                    }
                    assert forall|j: int| 0 <= j < i - pos implies !find_at(rest, sep@, j) by {
                        if j + sep@.len() <= rest.len() {
                            assert(rest.subrange(j, j + sep@.len() as int) =~= v@.subrange(
                                pos + j,
                                pos + j + sep@.len() as int,
                            ));
                            assert(!find_at(v@, sep@, pos + j));
                        }
                    }
                    lemma_find_sub_is(rest, sep@, i - pos);
                }
                proof {
                    assert(i + sep@.len() <= v@.len());
                }
                let piece = subvec(v, pos, i);
                r.push(piece);
                proof {
                    assert(piece@ =~= rest.take(i - pos));
                    assert(rest.skip(i - pos + sep@.len() as int) =~= v@.skip(
                        i + sep@.len() as int,
                    ));
                    assert(r.deep_view() + spec_split(v@.skip(i + sep@.len() as int), sep@)
                        =~~= spec_split(v@, sep@));
                }
                pos = i + sep.len();
            },
        }
    }
}

/// Splitting at most once: the part before the first occurrence of the
/// separator, and what follows it, if the separator occurs at all.
pub open spec fn spec_split2(s: Seq<char>, sep: Seq<char>) -> (Seq<char>, Option<Seq<char>>) {
    match spec_find_sub(s, sep) {
        None => (s, None),
        Some(i) => (s.take(i), Some(s.skip(i + sep.len()))),
    }
}

/// Splits `v` at the first occurrence of `sep`, if any.
pub fn split2_on(v: &Vec<char>, sep: &Vec<char>) -> (r: (Vec<char>, Option<Vec<char>>))
    requires
        sep@.len() >= 1,
    ensures
        ({
            let (a, b) = spec_split2(v@, sep@);
            r.0@ == a && match (r.1, b) {
                (Some(x), Some(y)) => x@ == y,
                (None, None) => true,
                _ => false,
            }
        }),
{
    let n = v.len();
    proof {
        assert(n == v@.len());
    }
    match find_sub_from(v, 0, sep) {
        None => {
            proof {
                lemma_find_sub_none(v@, sep@);
            }
            (subvec(v, 0, v.len()), None)
        },
        Some(i) => {
            proof {
                lemma_find_sub_is(v@, sep@, i as int);
            }
            proof {
                assert(i + sep@.len() <= v@.len());
            }
            let before = subvec(v, 0, i);
            let after = subvec(v, i + sep.len(), v.len());
            proof {
                assert(before@ =~= v@.take(i as int));
                assert(after@ =~= v@.skip(i + sep@.len() as int));
            }
            (before, Some(after))
        },
    }
}

/// Blank characters stripped by [`trim`]: the space and the horizontal tab.
pub open spec fn is_blank(c: char) -> bool {
    c == ' ' || c == '\t'
}

/// A string without leading blanks.
pub open spec fn spec_trim_front(s: Seq<char>) -> Seq<char>
    decreases s.len(),
{
    if s.len() > 0 && is_blank(s[0]) {
        spec_trim_front(s.drop_first())
    } else {
        s
    }
}

/// A string without trailing blanks.
pub open spec fn spec_trim_back(s: Seq<char>) -> Seq<char>
    decreases s.len(),
{
    if s.len() > 0 && is_blank(s[s.len() - 1]) {
        spec_trim_back(s.drop_last())
    } else {
        s
    }
}

/// A string without leading or trailing blanks.
pub open spec fn spec_trim(s: Seq<char>) -> Seq<char> {
    spec_trim_back(spec_trim_front(s))
}

proof fn lemma_trim_front_skip(s: Seq<char>, k: int)
    requires
        0 <= k <= s.len(),
        forall|j: int| 0 <= j < k ==> is_blank(s[j]),
        k < s.len() ==> !is_blank(s[k]),
    ensures
        spec_trim_front(s) == s.skip(k),
    decreases s.len(),
{
    if k == 0 {
        assert(s.skip(0) =~= s);
    } else {
        lemma_trim_front_skip(s.drop_first(), k - 1);
        assert(s.drop_first().skip(k - 1) =~= s.skip(k));
    }
}

proof fn lemma_trim_back_take(s: Seq<char>, k: int)
    requires
        0 <= k <= s.len(),
        forall|j: int| k <= j < s.len() ==> is_blank(s[j]),
        k > 0 ==> !is_blank(s[k - 1]),
    ensures
        spec_trim_back(s) == s.take(k),
    decreases s.len(),
{
    if k == s.len() {
        assert(s.take(k) =~= s);
    } else {
        lemma_trim_back_take(s.drop_last(), k);
        assert(s.drop_last().take(k) =~= s.take(k));
    }
}

/// Strips leading and trailing blanks, as header names and values are
/// trimmed when a header line is parsed.
#[verifier::loop_isolation(false)]
pub fn trim(v: &Vec<char>) -> (r: Vec<char>)
    ensures
        r@ == spec_trim(v@),
{
    let n = v.len();
    let mut start: usize = 0;
    while start < n && (v[start] == ' ' || v[start] == '\t')
        invariant
            start <= n,
            forall|j: int| 0 <= j < start ==> is_blank(v@[j]),
        decreases n - start,
    {
        start = start + 1;
    }
    proof {
        lemma_trim_front_skip(v@, start as int);
    }
    let ghost fronted = v@.skip(start as int);
    let mut end: usize = n;
    while end > start && (v[end - 1] == ' ' || v[end - 1] == '\t')
        invariant
            start <= end <= n,
            forall|j: int| end <= j < n ==> is_blank(v@[j]),
        decreases end,
    {
        end = end - 1;
    }
    proof {
        assert forall|j: int| end - start <= j < fronted.len() implies is_blank(fronted[j]) by {
            assert(fronted[j] == v@[start + j]);
        }
        if end > start {
            assert(fronted[end - start - 1] == v@[end - 1]);
        }
        lemma_trim_back_take(fronted, end - start);
    }
    let r = subvec(v, start, end);
    proof {
        assert(r@ =~= fronted.take(end - start));
    }
    r
}

/// Ascii lowercasing of one character; all other characters are unchanged.
pub open spec fn spec_lower_char(c: char) -> char {
    if c == 'A' {
        'a'
    } else if c == 'B' {
        'b'
    } else if c == 'C' {
        'c'
    } else if c == 'D' {
        'd'
    } else if c == 'E' {
        'e'
    } else if c == 'F' {
        'f'
    } else if c == 'G' {
        'g'
    } else if c == 'H' {
        'h'
    } else if c == 'I' {
        'i'
    } else if c == 'J' {
        'j'
    } else if c == 'K' {
        'k'
    } else if c == 'L' {
        'l'
    } else if c == 'M' {
        'm'
    } else if c == 'N' {
        'n'
    } else if c == 'O' {
        'o'
    } else if c == 'P' {
        'p'
    } else if c == 'Q' {
        'q'
    } else if c == 'R' {
        'r'
    } else if c == 'S' {
        's'
    } else if c == 'T' {
        't'
    } else if c == 'U' {
        'u'
    } else if c == 'V' {
        'v'
    } else if c == 'W' {
        'w'
    } else if c == 'X' {
        'x'
    } else if c == 'Y' {
        'y'
    } else if c == 'Z' {
        'z'
    } else {
        c
    }
}

/// Ascii lowercasing of a whole string.
pub open spec fn spec_lower(s: Seq<char>) -> Seq<char> {
    s.map_values(|c: char| spec_lower_char(c))
}

/// Lowercases one character.
pub fn lower_char(c: char) -> (r: char)
    ensures
        r == spec_lower_char(c),
{
    match c {
        'A' => 'a',
        'B' => 'b',
        'C' => 'c',
        'D' => 'd',
        'E' => 'e',
        'F' => 'f',
        'G' => 'g',
        'H' => 'h',
        'I' => 'i',
        'J' => 'j',
        'K' => 'k',
        'L' => 'l',
        'M' => 'm',
        'N' => 'n',
        'O' => 'o',
        'P' => 'p',
        'Q' => 'q',
        'R' => 'r',
        'S' => 's',
        'T' => 't',
        'U' => 'u',
        'V' => 'v',
        'W' => 'w',
        'X' => 'x',
        'Y' => 'y',
        'Z' => 'z',
        _ => c,
    }
}

/// Lowercases a whole string, ascii-wise.
#[verifier::loop_isolation(false)]
pub fn to_lower(v: &Vec<char>) -> (r: Vec<char>)
    ensures
        r@ == spec_lower(v@),
{
    let mut r: Vec<char> = Vec::new();
    let mut i: usize = 0;
    while i < v.len()
        invariant
            i <= v@.len(),
            r@ == spec_lower(v@.take(i as int)),
        decreases v@.len() - i,
    {
        r.push(lower_char(v[i]));
        proof {
            assert(r@ =~= spec_lower(v@.take(i + 1)));
        }
        i = i + 1;
    }
    proof {
        assert(v@.take(v@.len() as int) =~= v@);
    }
    r
}

/// Compares a character vector against a string slice.
#[verifier::loop_isolation(false)]
pub fn chars_eq_str(v: &Vec<char>, s: &str) -> (r: bool)
    ensures
        r == (v@ == s@),
{
    let n = s.unicode_len();
    if v.len() != n {
        return false;
    }
    let mut i: usize = 0;
    while i < n
        invariant
            i <= n == v@.len() == s@.len(),
            forall|j: int| 0 <= j < i ==> v@[j] == s@[j],
        decreases n - i,
    {
        if v[i] != s.get_char(i) {
            return false;
        }
        i = i + 1;
    }
    proof {
        assert(v@ =~= s@);
    }
    true
}

/// Compares two string slices.
#[verifier::loop_isolation(false)]
pub fn str_eq(a: &str, b: &str) -> (r: bool)
    ensures
        r == (a@ == b@),
{
    let n = a.unicode_len();
    if b.unicode_len() != n {
        return false;
    }
    let mut i: usize = 0;
    while i < n
        invariant
            i <= n == a@.len() == b@.len(),
            forall|j: int| 0 <= j < i ==> a@[j] == b@[j],
        decreases n - i,
    {
        if a.get_char(i) != b.get_char(i) {
            return false;
        }
        i = i + 1;
    }
    proof {
        assert(a@ =~= b@);
    }
    true
}

/// Compares two character vectors.
#[verifier::loop_isolation(false)]
pub fn chars_eq(a: &Vec<char>, b: &Vec<char>) -> (r: bool)
    ensures
        r == (a@ == b@),
{
    if a.len() != b.len() {
        return false;
    }
    let mut i: usize = 0;
    while i < a.len()
        invariant
            i <= a@.len() == b@.len(),
            forall|j: int| 0 <= j < i ==> a@[j] == b@[j],
        decreases a@.len() - i,
    {
        if a[i] != b[i] {
            return false;
        }
        i = i + 1;
    }
    proof {
        assert(a@ =~= b@);
    }
    true
}

/// Indexing the deep view of a vector of character vectors is indexing
/// the vector and taking the view.
pub proof fn lemma_deep_index(v: &Vec<Vec<char>>, i: int)
    requires
        0 <= i < v@.len(),
    ensures
        v.deep_view()[i] == v@[i]@,
{
    assert(v.deep_view()[i] =~= v@[i]@);
}

/// Decimal digit for a value below ten.
pub open spec fn spec_digit(n: int) -> char {
    if n == 0 {
        '0'
    } else if n == 1 {
        '1'
    } else if n == 2 {
        '2'
    } else if n == 3 {
        '3'
    } else if n == 4 {
        '4'
    } else if n == 5 {
        '5'
    } else if n == 6 {
        '6'
    } else if n == 7 {
        '7'
    } else if n == 8 {
        '8'
    } else {
        '9'
    }
}

/// Standard decimal notation of a natural number, most significant digit
/// first, with no leading zeros (except for zero itself).
pub open spec fn spec_decimal(n: int) -> Seq<char>
    decreases n,
{
    if n <= 9 {
        seq![spec_digit(n)]
    } else {
        spec_decimal(n / 10).push(spec_digit(n % 10))
    }
}

fn digit_char(n: u64) -> (c: char)
    requires
        n <= 9,
    ensures
        c == spec_digit(n as int),
{
    match n {
        0 => '0',
        1 => '1',
        2 => '2',
        3 => '3',
        4 => '4',
        5 => '5',
        6 => '6',
        7 => '7',
        8 => '8',
        _ => '9',
    }
}

/// Decimal digits of `n`, most significant first.
pub fn u64_to_chars(n: u64) -> (r: Vec<char>)
    ensures
        r@ == spec_decimal(n as int),
    decreases n,
{
    if n <= 9 {
        let mut r: Vec<char> = Vec::new();
        r.push(digit_char(n));
        proof {
            assert(r@ =~= spec_decimal(n as int));
        }
        r
    } else {
        let mut r = u64_to_chars(n / 10);
        r.push(digit_char(n % 10));
        proof {
            assert(r@ =~= spec_decimal(n as int));
        }
        r
    }
}

/// Renders a number in decimal, as `Content-Length` values and status codes
/// are written on the wire.
pub fn u64_to_string(n: u64) -> (r: String)
    ensures
        r@ == spec_decimal(n as int),
{
    let chars = u64_to_chars(n);
    string_of(&chars)
}

/// Value of a decimal digit, or a negative number for any other character.
pub open spec fn spec_digit_val(c: char) -> int {
    if c == '0' {
        0
    } else if c == '1' {
        1
    } else if c == '2' {
        2
    } else if c == '3' {
        3
    } else if c == '4' {
        4
    } else if c == '5' {
        5
    } else if c == '6' {
        6
    } else if c == '7' {
        7
    } else if c == '8' {
        8
    } else if c == '9' {
        9
    } else {
        -1
    }
}

/// Every character of the string is a decimal digit.
pub open spec fn all_digits(s: Seq<char>) -> bool {
    forall|j: int| 0 <= j < s.len() ==> spec_digit_val(s[j]) >= 0
}

/// Value of a string of decimal digits, most significant digit first.
pub open spec fn spec_dec_value(s: Seq<char>) -> int
    decreases s.len(),
{
    if s.len() == 0 {
        0
    } else {
        spec_dec_value(s.drop_last()) * 10 + spec_digit_val(s.last())
    }
}

proof fn lemma_dec_value_nonneg(s: Seq<char>)
    requires
        all_digits(s),
    ensures
        spec_dec_value(s) >= 0,
    decreases s.len(),
{
    if s.len() > 0 {
        lemma_dec_value_nonneg(s.drop_last());
    }
}

proof fn lemma_dec_value_prefix(s: Seq<char>, k: int)
    requires
        all_digits(s),
        0 <= k <= s.len(),
    ensures
        spec_dec_value(s.take(k)) <= spec_dec_value(s),
    decreases s.len() - k,
{
    if k < s.len() {
        lemma_dec_value_prefix(s, k + 1);
        lemma_dec_value_nonneg(s.take(k));
        assert(s.take(k + 1).drop_last() =~= s.take(k));
        assert(s.take(k + 1).last() == s[k]);
    } else {
        assert(s.take(k) =~= s);
    }
}

fn digit_val(c: char) -> (r: Option<u64>)
    ensures
        match r {
            Some(d) => spec_digit_val(c) == d,
            None => spec_digit_val(c) < 0,
        },
{
    match c {
        '0' => Some(0),
        '1' => Some(1),
        '2' => Some(2),
        '3' => Some(3),
        '4' => Some(4),
        '5' => Some(5),
        '6' => Some(6),
        '7' => Some(7),
        '8' => Some(8),
        '9' => Some(9),
        _ => None,
    }
}

/// Reads a decimal number, as found in a `Content-Length` header.  Fails on
/// an empty string, on any character that is not a digit, and on a value
/// that does not fit in a `u64`.
#[verifier::loop_isolation(false)]
pub fn parse_decimal(v: &Vec<char>) -> (r: Option<u64>)
    ensures
        match r {
            Some(n) => v@.len() > 0 && all_digits(v@) && n == spec_dec_value(v@),
            None => v@.len() == 0 || !all_digits(v@) || spec_dec_value(v@) > u64::MAX,
        },
{
    if v.len() == 0 {
        return None;
    }
    let mut acc: u64 = 0;
    let mut i: usize = 0;
    while i < v.len()
        invariant
            i <= v@.len(),
            all_digits(v@.take(i as int)),
            acc == spec_dec_value(v@.take(i as int)),
        decreases v@.len() - i,
    {
        match digit_val(v[i]) {
            None => {
                return None;
            },
            Some(d) => {
                proof {
                    assert(v@.take(i + 1).drop_last() =~= v@.take(i as int));
                    assert(all_digits(v@.take(i + 1)));
                }
                if acc > (u64::MAX - d) / 10 {
                    proof {
                        if all_digits(v@) {
                            lemma_dec_value_prefix(v@, i + 1);
                        }
                    }
                    return None;
                }
                acc = acc * 10 + d;
            },
        }
        i = i + 1;
    }
    proof {
        assert(v@.take(v@.len() as int) =~= v@);
    }
    Some(acc)
}

} // verus!
