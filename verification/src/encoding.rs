//! Url encoding and decoding of query strings.
//!
//! Decoding turns `+` into a space and `%XX` into the character whose code
//! is the two-digit hex number `XX`; any malformed escape fails the whole
//! decode.  Encoding passes `A`-`Z`, `a`-`z`, `0`-`9`, `-`, `.`, `_` and
//! `~` through and writes every other character as a `%XX` escape with
//! uppercase hex digits, from the low eight bits of its code.

use vstd::prelude::*;

use crate::text;

verus! {

/// Characters that url encoding passes through unescaped.
pub open spec fn is_unreserved(c: char) -> bool {
    ||| ('A' <= c && c <= 'Z')
    ||| ('a' <= c && c <= 'z')
    ||| ('0' <= c && c <= '9')
    ||| c == '-'
    ||| c == '.'
    ||| c == '_'
    ||| c == '~'
}

/// Uppercase hex digit of a value below sixteen.
pub open spec fn spec_hex_digit(n: int) -> char {
    if n == 0 {
        '0'
    } else if n == 1 {
        '1'
    } else if n == 2 {
        '2'
    } else if n == 3 {
        '3'
    } else if n == 4 {
        '4'
    } else if n == 5 {
        '5'
    } else if n == 6 {
        '6'
    } else if n == 7 {
        '7'
    } else if n == 8 {
        '8'
    } else if n == 9 {
        '9'
    } else if n == 10 {
        'A'
    } else if n == 11 {
        'B'
    } else if n == 12 {
        'C'
    } else if n == 13 {
        'D'
    } else if n == 14 {
        'E'
    } else {
        'F'
    }
}

/// Value of a hex digit in either case, or a negative number for any other
/// character.
pub open spec fn spec_hex_val(c: char) -> int {
    if c == 'a' || c == 'A' {
        10
    } else if c == 'b' || c == 'B' {
        11
    } else if c == 'c' || c == 'C' {
        12
    } else if c == 'd' || c == 'D' {
        13
    } else if c == 'e' || c == 'E' {
        14
    } else if c == 'f' || c == 'F' {
        15
    } else {
        crate::text::spec_digit_val(c)
    }
}

/// The url encoding of one character: itself if unreserved, else a `%XX`
/// escape of the low eight bits of its code.
pub open spec fn spec_encode_char(c: char) -> Seq<char> {
    if is_unreserved(c) {
        seq![c]
    } else {
        seq!['%', spec_hex_digit((c as u32) as int / 16 % 16), spec_hex_digit((c as u32) as int % 16)]
    }
}

/// The url encoding of a whole string.
pub open spec fn spec_encode(s: Seq<char>) -> Seq<char>
    decreases s.len(),
{
    if s.len() == 0 {
        Seq::empty()
    } else {
        spec_encode_char(s[0]) + spec_encode(s.drop_first())
    }
}

/// The url decoding of a string, or `None` if a `%` escape is malformed.
pub open spec fn spec_decode(s: Seq<char>) -> Option<Seq<char>>
    decreases s.len(),
{
    if s.len() == 0 {
        Some(Seq::empty())
    } else if s[0] == '+' {
        match spec_decode(s.drop_first()) {
            None => None,
            Some(t) => Some(seq![' '] + t),
        }
    } else if s[0] == '%' {
        if s.len() >= 3 && spec_hex_val(s[1]) >= 0 && spec_hex_val(s[2]) >= 0 {
            let b = (spec_hex_val(s[1]) * 16 + spec_hex_val(s[2])) as u8;
            match spec_decode(s.skip(3)) {
                None => None,
                Some(t) => Some(seq![b as char] + t),
            }
        } else {
            None
        }
    } else {
        match spec_decode(s.drop_first()) {
            None => None,
            Some(t) => Some(seq![s[0]] + t),
        }
    }
}

fn hex_digit(n: u32) -> (c: char)
    requires
        n <= 15,
    ensures
        c == spec_hex_digit(n as int),
{
    match n {
        0 => '0',
        1 => '1',
        2 => '2',
        3 => '3',
        4 => '4',
        5 => '5',
        6 => '6',
        7 => '7',
        8 => '8',
        9 => '9',
        10 => 'A',
        11 => 'B',
        12 => 'C',
        13 => 'D',
        14 => 'E',
        _ => 'F',
    }
}

fn hex_val(c: char) -> (r: Option<u8>)
    ensures
        match r {
            Some(d) => spec_hex_val(c) == d && d <= 15,
            None => spec_hex_val(c) < 0,
        },
{
    match c {
        '0' => Some(0),
        '1' => Some(1),
        '2' => Some(2),
        '3' => Some(3),
        '4' => Some(4),
        '5' => Some(5),
        '6' => Some(6),
        '7' => Some(7),
        '8' => Some(8),
        '9' => Some(9),
        'a' => Some(10),
        'A' => Some(10),
        'b' => Some(11),
        'B' => Some(11),
        'c' => Some(12),
        'C' => Some(12),
        'd' => Some(13),
        'D' => Some(13),
        'e' => Some(14),
        'E' => Some(14),
        'f' => Some(15),
        'F' => Some(15),
        _ => None,
    }
}

/// Url decoding over characters.  Fails exactly where [`spec_decode`]
/// does: on a `%` escape that is cut short or holds a non-hex digit.
#[verifier::loop_isolation(false)]
pub fn decode_chars(v: &Vec<char>) -> (r: Option<Vec<char>>)
    ensures
        match r {
            Some(out) => spec_decode(v@) == Some(out@),
            None => spec_decode(v@) is None,
        },
{
    let n = v.len();
    let mut out: Vec<char> = Vec::new();
    let mut i: usize = 0;
    proof {
        assert(v@.skip(0int) =~= v@);
        assert(match spec_decode(v@) {
            None => None::<Seq<char>>,
            Some(t) => Some(out@ + t),
        } == spec_decode(v@)) by {
            if let Some(t) = spec_decode(v@) {
                assert(out@ + t =~= t);
            }
        }
    }
    while i < n
        invariant
            i <= n,
            spec_decode(v@) == match spec_decode(v@.skip(i as int)) {
                None => None::<Seq<char>>,
                Some(t) => Some(out@ + t),
            },
        decreases n - i,
    {
        let ghost rest = v@.skip(i as int);
        let c = v[i];
        proof {
            assert(rest[0] == c);
        }
        if c == '+' {
            out.push(' ');
            proof {
                assert(rest.drop_first() =~= v@.skip(i + 1));
            }
            i = i + 1;
        } else if c == '%' {
            if n - i < 3 {
                proof {
                    assert(rest.len() < 3);
                }
                return None;
            }
            proof {
                assert(rest[1] == v@[i + 1]);
                assert(rest[2] == v@[i + 2]);
            }
            let d1 = match hex_val(v[i + 1]) {
                Some(d) => d,
                None => {
                    return None;
                },
            };
            let d2 = match hex_val(v[i + 2]) {
                Some(d) => d,
                None => {
                    return None;
                },
            };
            let b: u8 = d1 * 16 + d2;
            out.push(b as char);
            proof {
                assert(rest.skip(3) =~= v@.skip(i + 3));
            }
            i = i + 3;
        } else {
            out.push(c);
            proof {
                assert(rest.drop_first() =~= v@.skip(i + 1));
            }
            i = i + 1;
        }
    }
    proof {
        assert(v@.skip(n as int) =~= Seq::<char>::empty());
        assert(out@ + Seq::<char>::empty() =~= out@);
    }
    Some(out)
}

/// Url encoding over characters.
#[verifier::loop_isolation(false)]
pub fn encode_chars(v: &Vec<char>) -> (r: Vec<char>)
    ensures
        r@ == spec_encode(v@),
{
    let n = v.len();
    let mut out: Vec<char> = Vec::new();
    let mut i: usize = 0;
    proof {
        assert(v@.take(0int) =~= Seq::<char>::empty());
    }
    while i < n
        invariant
            i <= n,
            out@ == spec_encode(v@.take(i as int)),
        decreases n - i,
    {
        let c = v[i];
        if ('A' <= c && c <= 'Z') || ('a' <= c && c <= 'z') || ('0' <= c && c <= '9') || c == '-'
            || c == '.' || c == '_' || c == '~' {
            out.push(c);
        } else {
            let u: u32 = c as u32;
            out.push('%');
            out.push(hex_digit(u / 16 % 16));
            out.push(hex_digit(u % 16));
        }
        proof {
            lemma_encode_snoc(v@.take(i + 1));
            assert(v@.take(i + 1).drop_last() =~= v@.take(i as int));
            assert(out@ =~= spec_encode(v@.take(i + 1)));
        }
        i = i + 1;
    }
    proof {
        assert(v@.take(n as int) =~= v@);
    }
    out
}

/// Unfolds [`spec_encode`] at the back instead of the front.
proof fn lemma_encode_snoc(s: Seq<char>)
    requires
        s.len() > 0,
    ensures
        spec_encode(s) == spec_encode(s.drop_last()) + spec_encode_char(s.last()),
    decreases s.len(),
{
    if s.len() == 1 {
        assert(s.drop_first() =~= Seq::<char>::empty());
        assert(s.drop_last() =~= Seq::<char>::empty());
        assert(spec_encode(s.drop_first()) == Seq::<char>::empty());
        assert(spec_encode(s.drop_last()) == Seq::<char>::empty());
        assert(spec_encode(s) == spec_encode_char(s[0]) + spec_encode(s.drop_first()));
        assert(spec_encode_char(s[0]) + Seq::<char>::empty() =~= spec_encode_char(s[0]));
        assert(Seq::<char>::empty() + spec_encode_char(s.last()) =~= spec_encode_char(s[0]));
    } else {
        lemma_encode_snoc(s.drop_first());
        assert(s.drop_first().drop_last() =~= s.drop_last().drop_first());
        assert(s.drop_last()[0] == s[0]);
        assert(spec_encode(s) == spec_encode_char(s[0]) + spec_encode(s.drop_first()));
        assert(spec_encode(s.drop_last()) == spec_encode_char(s[0]) + spec_encode(
            s.drop_last().drop_first(),
        ));
        assert(spec_encode_char(s[0]) + (spec_encode(s.drop_first().drop_last())
            + spec_encode_char(s.last())) =~= (spec_encode_char(s[0]) + spec_encode(
            s.drop_first().drop_last(),
        )) + spec_encode_char(s.last()));
    }
}

/// Decodes a url encoded string.  Returns `None` if the decode fails for
/// any reason.
pub fn decode(url: &str) -> (r: Option<String>)
    ensures
        match r {
            Some(out) => spec_decode(url@) == Some(out@),
            None => spec_decode(url@) is None,
        },
{
    let chars = text::chars_of(url);
    match decode_chars(&chars) {
        None => None,
        Some(out) => Some(text::string_of(&out)),
    }
}

/// Encodes a string with url encoding.  Every character of the result is
/// unreserved or the escape `%`.
pub fn encode(url: &str) -> (r: String)
    ensures
        r@ == spec_encode(url@),
        forall|j: int| 0 <= j < r@.len() ==> is_unreserved(r@[j]) || r@[j] == '%',
{
    let chars = text::chars_of(url);
    let out = encode_chars(&chars);
    proof {
        lemma_encode_alphabet(url@);
    }
    text::string_of(&out)
}

/// Everything url encoding emits is unreserved or the escape `%`: hex
/// digits are themselves unreserved characters.
pub proof fn lemma_encode_alphabet(s: Seq<char>)
    ensures
        forall|j: int|
            0 <= j < spec_encode(s).len() ==> is_unreserved(spec_encode(s)[j]) || spec_encode(
                s,
            )[j] == '%',
    decreases s.len(),
{
    if s.len() > 0 {
        lemma_encode_alphabet(s.drop_first());
        let head = spec_encode_char(s[0]);
        let tail = spec_encode(s.drop_first());
        assert forall|j: int| 0 <= j < spec_encode(s).len() implies is_unreserved(
            spec_encode(s)[j],
        ) || spec_encode(s)[j] == '%' by {
            if j < head.len() {
                assert(spec_encode(s)[j] == head[j]);
            } else {
                assert(spec_encode(s)[j] == tail[j - head.len()]);
            }
        }
    }
}

/// Decoding inverts encoding on every string of characters whose codes fit
/// in one byte: printable ascii and the non-ascii byte values.
pub proof fn lemma_decode_encode(s: Seq<char>)
    requires
        forall|j: int| 0 <= j < s.len() ==> (s[j] as u32) <= 255,
    ensures
        spec_decode(spec_encode(s)) == Some(s),
    decreases s.len(),
{
    if s.len() == 0 {
    } else {
        lemma_decode_encode(s.drop_first());
        let c = s[0];
        let head = spec_encode_char(c);
        let tail = spec_encode(s.drop_first());
        let whole = spec_encode(s);
        vstd::utf8::char_is_scalar(c);
        vstd::utf8::char_u32_cast(c, c as u32);
        if is_unreserved(c) {
            assert(whole[0] == c);
            assert(whole.drop_first() =~= tail);
            assert(seq![c] + s.drop_first() =~= s);
        } else {
            let u = (c as u32) as int;
            let h1 = spec_hex_digit(u / 16 % 16);
            let h2 = spec_hex_digit(u % 16);
            assert(whole[0] == '%');
            assert(whole[1] == h1);
            assert(whole[2] == h2);
            lemma_hex_digit_val(u / 16 % 16);
            lemma_hex_digit_val(u % 16);
            assert(spec_hex_val(h1) * 16 + spec_hex_val(h2) == u);
            assert(whole.skip(3) =~= tail);
            let b = (spec_hex_val(h1) * 16 + spec_hex_val(h2)) as u8;
            assert(b as char == c) by {
                assert(b as u32 == c as u32);
                vstd::utf8::char_u32_cast(c, b as u32);
            }
            assert(seq![c] + s.drop_first() =~= s);
        }
    }
}

/// Hex digits read back as the value they were written from.
proof fn lemma_hex_digit_val(n: int)
    requires
        0 <= n <= 15,
    ensures
        spec_hex_val(spec_hex_digit(n)) == n,
{
}

} // verus!
