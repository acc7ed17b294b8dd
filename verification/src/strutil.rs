//! String helpers: character-level comparison and search, decimal rendering,
//! and the few trusted bridges to std string operations that vstd does not
//! specify.

use vstd::prelude::*;

verus! {

/// Relies on std's String::push: appends exactly one character.
#[verifier::external_body]
pub fn string_push(s: &mut String, c: char)
    ensures
        final(s)@ == old(s)@.push(c),
{
    s.push(c);
}

/// Relies on std's String::from_utf8: decodes a UTF-8 byte sequence, and
/// fails exactly on byte sequences that are not valid UTF-8.
#[verifier::external_body]
pub fn string_from_utf8(v: Vec<u8>) -> (r: Option<String>)
    ensures
        r matches Some(s) ==> vstd::utf8::valid_utf8(v@) && s@ == vstd::utf8::decode_utf8(v@),
        r is None ==> !vstd::utf8::valid_utf8(v@),
{
    String::from_utf8(v).ok()
}

/// Relies on std's char::from_u32: converts a Unicode scalar value to a
/// character, and returns `None` exactly for surrogate code points and values
/// above 0x10FFFF.
#[verifier::external_body]
pub fn char_from_u32(v: u32) -> (r: Option<char>)
    ensures
        r matches Some(c) ==> c as u32 == v,
        (r is Some) <==> (v < 0xD800 || (0xE000 <= v && v <= 0x10FFFF)),
{
    char::from_u32(v)
}

/// Character-for-character string equality.
pub fn str_eq(a: &str, b: &str) -> (r: bool)
    ensures
        r == (a@ == b@),
{
    let a_len = a.unicode_len();
    let b_len = b.unicode_len();
    if a_len != b_len {
        assert(a@ != b@);
        return false;
    }
    let mut i: usize = 0;
    while i < a_len
        invariant
            i <= a_len,
            a_len == a@.len(),
            a_len == b@.len(),
            forall|j: int| 0 <= j < i ==> a@[j] == b@[j],
        decreases a_len - i,
    {
        if a.get_char(i) != b.get_char(i) {
            return false;
        }
        i = i + 1;
    }
    proof {
        assert(a@ =~= b@);
    }
    true
}

/// The first position of `c` in `s`, if any.
pub fn str_find_char(s: &str, c: char) -> (r: Option<usize>)
    ensures
        r matches Some(i) ==> i < s@.len() && s@[i as int] == c && (forall|j: int|
            0 <= j < i ==> s@[j] != c),
        r is None ==> forall|j: int| 0 <= j < s@.len() ==> s@[j] != c,
{
    let len = s.unicode_len();
    let mut i: usize = 0;
    while i < len
        invariant
            i <= len,
            len == s@.len(),
            forall|j: int| 0 <= j < i ==> s@[j] != c,
        decreases len - i,
    {
        if s.get_char(i) == c {
            return Some(i);
        }
        i = i + 1;
    }
    None
}

/// True when `s` ends with `suffix`.
pub fn str_ends_with(s: &str, suffix: &str) -> (r: bool)
    ensures
        r == (s@.len() >= suffix@.len() && s@.skip(s@.len() - suffix@.len()) == suffix@),
{
    let s_len = s.unicode_len();
    let suf_len = suffix.unicode_len();
    if s_len < suf_len {
        return false;
    }
    let start = s_len - suf_len;
    let mut i: usize = 0;
    while i < suf_len
        invariant
            i <= suf_len,
            suf_len == suffix@.len(),
            s_len == s@.len(),
            start == s_len - suf_len,
            forall|j: int| 0 <= j < i ==> s@[start + j] == suffix@[j],
        decreases suf_len - i,
    {
        if s.get_char(start + i) != suffix.get_char(i) {
            assert(s@.skip(s@.len() - suffix@.len())[i as int] != suffix@[i as int]);
            return false;
        }
        i = i + 1;
    }
    proof {
        assert(s@.skip(s@.len() - suffix@.len()) =~= suffix@);
    }
    true
}

/// The decimal digit character for `d`.
pub open spec fn spec_digit(d: int) -> char
    recommends
        0 <= d < 10,
{
    if d == 0 {
        '0'
    } else if d == 1 {
        '1'
    } else if d == 2 {
        '2'
    } else if d == 3 {
        '3'
    } else if d == 4 {
        '4'
    } else if d == 5 {
        '5'
    } else if d == 6 {
        '6'
    } else if d == 7 {
        '7'
    } else if d == 8 {
        '8'
    } else {
        '9'
    }
}

/// The decimal digits of `n`, most significant first.
pub open spec fn spec_dec_digits(n: nat) -> Seq<char>
    decreases n,
{
    if n < 10 {
        seq![spec_digit(n as int)]
    } else {
        spec_dec_digits(n / 10).push(spec_digit((n % 10) as int))
    }
}

/// The decimal rendering of `v`, with a leading minus sign when negative.
pub open spec fn spec_i32_string(v: i32) -> Seq<char> {
    if v >= 0 {
        spec_dec_digits(v as nat)
    } else {
        seq!['-'] + spec_dec_digits((-(v as int)) as nat)
    }
}

fn digit_char(d: u32) -> (r: char)
    requires
        d < 10,
    ensures
        r == spec_digit(d as int),
{
    let r = match d {
        0 => '0',
        1 => '1',
        2 => '2',
        3 => '3',
        4 => '4',
        5 => '5',
        6 => '6',
        7 => '7',
        8 => '8',
        _ => '9',
    };
    r
}

fn u32_digits(n: u32) -> (r: Vec<char>)
    ensures
        r@ == spec_dec_digits(n as nat),
    decreases n,
{
    if n < 10 {
        let mut v: Vec<char> = Vec::new();
        v.push(digit_char(n));
        v
    } else {
        let mut v = u32_digits(n / 10);
        v.push(digit_char(n % 10));
        v
    }
}

/// Renders `v` in decimal, as `Integer.toString` would.
pub fn i32_to_string(v: i32) -> (r: String)
    ensures
        r@ == spec_i32_string(v),
{
    let mut s = String::new();
    let magnitude: u32 = if v >= 0 {
        v as u32
    } else {
        proof {
            assert(0 <= -(v as int) < 0x1_0000_0000);
        }
        (-(v as i64)) as u32
    };
    if v < 0 {
        string_push(&mut s, '-');
    }
    let digits = u32_digits(magnitude);
    let mut i: usize = 0;
    while i < digits.len()
        invariant
            i <= digits@.len(),
            s@ == (if v >= 0 {
                Seq::<char>::empty()
            } else {
                seq!['-']
            }) + digits@.take(i as int),
            digits@ == spec_dec_digits(magnitude as nat),
        decreases digits@.len() - i,
    {
        string_push(&mut s, digits[i]);
        proof {
            assert(digits@.take(i + 1) =~= digits@.take(i as int).push(digits@[i as int]));
        }
        i = i + 1;
    }
    proof {
        assert(digits@.take(digits@.len() as int) =~= digits@);
        if v >= 0 {
            assert(s@ =~= spec_i32_string(v));
        } else {
            assert(magnitude as nat == (-(v as int)) as nat);
            assert(s@ =~= spec_i32_string(v));
        }
    }
    s
}

} // verus!

verus! {

/// The UTF-16 code units encoding one character: one unit for values below
/// 0x10000, a surrogate pair above.
pub open spec fn utf16_units(c: char) -> Seq<u16> {
    if (c as u32) < 0x10000 {
        seq![(c as u32) as u16]
    } else {
        seq![
            (0xD800 + (((c as u32) - 0x10000) / 0x400)) as u16,
            (0xDC00 + (((c as u32) - 0x10000) % 0x400)) as u16,
        ]
    }
}

/// The UTF-16 encoding of a character sequence.
pub open spec fn utf16_encode(s: Seq<char>) -> Seq<u16>
    decreases s.len(),
{
    if s.len() == 0 {
        Seq::empty()
    } else {
        utf16_units(s[0]) + utf16_encode(s.skip(1))
    }
}

pub proof fn lemma_utf16_encode_concat(a: Seq<char>, b: Seq<char>)
    ensures
        utf16_encode(a + b) == utf16_encode(a) + utf16_encode(b),
    decreases a.len(),
{
    if a.len() == 0 {
        assert(a + b =~= b);
        assert(utf16_encode(a) + utf16_encode(b) =~= utf16_encode(b));
    } else {
        lemma_utf16_encode_concat(a.skip(1), b);
        assert((a + b).skip(1) =~= a.skip(1) + b);
        assert(utf16_units((a + b)[0]) + (utf16_encode(a.skip(1)) + utf16_encode(b))
            =~= (utf16_units(a[0]) + utf16_encode(a.skip(1))) + utf16_encode(b));
    }
}

/// The characters encoded by a UTF-16 code-unit sequence, or `None` when the
/// sequence is ill-formed (a lone or misordered surrogate).
pub open spec fn utf16_decode(units: Seq<u16>) -> Option<Seq<char>>
    decreases units.len(),
{
    if units.len() == 0 {
        Some(Seq::empty())
    } else {
        let u = units[0] as u32;
        if u < 0xD800 || u >= 0xE000 {
            match utf16_decode(units.skip(1)) {
                Some(rest) => Some(seq![u as char] + rest),
                None => None,
            }
        } else if u < 0xDC00 && units.len() >= 2 && 0xDC00 <= units[1] && units[1] < 0xE000 {
            let cp = 0x10000 + (u - 0xD800) * 0x400 + (units[1] - 0xDC00);
            match utf16_decode(units.skip(2)) {
                Some(rest) => Some(seq![(cp as u32) as char] + rest),
                None => None,
            }
        } else {
            None
        }
    }
}

/// Encodes a string to UTF-16 code units.
pub fn encode_utf16_str(s: &str) -> (r: Vec<u16>)
    ensures
        r@ == utf16_encode(s@),
{
    let len = s.unicode_len();
    let mut out: Vec<u16> = Vec::new();
    let mut i: usize = 0;
    proof {
        assert(s@.take(0) =~= Seq::<char>::empty());
    }
    while i < len
        invariant
            i <= len,
            len == s@.len(),
            out@ == utf16_encode(s@.take(i as int)),
        decreases len - i,
    {
        let c = s.get_char(i);
        let v = c as u32;
        if v < 0x10000 {
            out.push(v as u16);
        } else {
            out.push((0xD800 + ((v - 0x10000) / 0x400)) as u16);
            out.push((0xDC00 + ((v - 0x10000) % 0x400)) as u16);
        }
        proof {
            assert(s@.take(i + 1) =~= s@.take(i as int) + seq![s@[i as int]]);
            lemma_utf16_encode_concat(s@.take(i as int), seq![s@[i as int]]);
            assert(seq![s@[i as int]].skip(1) =~= Seq::<char>::empty());
            assert(utf16_encode(Seq::<char>::empty()) =~= Seq::<u16>::empty());
            assert(utf16_encode(seq![s@[i as int]]) =~= utf16_units(s@[i as int]));
            assert(out@ =~= utf16_encode(s@.take(i as int)) + utf16_units(s@[i as int]));
        }
        i = i + 1;
    }
    proof {
        assert(s@.take(len as int) =~= s@);
    }
    out
}

/// Decodes UTF-16 code units into a string; fails exactly on ill-formed
/// sequences.
pub fn decode_utf16_units(units: &Vec<u16>) -> (r: Option<String>)
    ensures
        r matches Some(s) ==> utf16_decode(units@) == Some(s@),
        r is None ==> utf16_decode(units@) is None,
{
    let n = units.len();
    let mut out = String::new();
    let mut i: usize = 0;
    proof {
        assert(units@.skip(0) =~= units@);
    }
    loop
        invariant_except_break
            i <= n,
            n == units@.len(),
            utf16_decode(units@) == (match utf16_decode(units@.skip(i as int)) {
                Some(rest) => Some(out@ + rest),
                None => None::<Seq<char>>,
            }),
        ensures
            utf16_decode(units@) == Some(out@),
        decreases n - i,
    {
        if i >= n {
            proof {
                assert(units@.skip(i as int) =~= Seq::<u16>::empty());
                assert(out@ + Seq::<char>::empty() =~= out@);
            }
            break ;
        }
        let ghost tail = units@.skip(i as int);
        proof {
            assert(tail[0] == units@[i as int]);
            assert(tail.skip(1) =~= units@.skip(i + 1));
        }
        let u = units[i] as u32;
        if u < 0xD800 || u >= 0xE000 {
            let c = match char_from_u32(u) {
                Some(c) => c,
                None => {
                    return None;
                },
            };
            let ghost prev = out@;
            string_push(&mut out, c);
            proof {
                vstd::utf8::char_u32_cast(c, u);
                match utf16_decode(units@.skip(i + 1)) {
                    Some(rest) => {
                        assert(prev + (seq![u as char] + rest) =~= out@ + rest);
                    },
                    None => {},
                }
            }
            i = i + 1;
        } else if u < 0xDC00 && i + 1 < n && units[i + 1] >= 0xDC00 && units[i + 1] < 0xE000 {
            proof {
                assert(tail.len() >= 2);
                assert(tail[1] == units@[i + 1]);
                assert(tail.skip(2) =~= units@.skip(i + 2));
            }
            let lo = units[i + 1] as u32;
            let cp: u32 = 0x10000 + (u - 0xD800) * 0x400 + (lo - 0xDC00);
            let c = match char_from_u32(cp) {
                Some(c) => c,
                None => {
                    return None;
                },
            };
            let ghost prev = out@;
            string_push(&mut out, c);
            proof {
                vstd::utf8::char_u32_cast(c, cp);
                match utf16_decode(units@.skip(i + 2)) {
                    Some(rest) => {
                        assert(prev + (seq![cp as char] + rest) =~= out@ + rest);
                    },
                    None => {},
                }
            }
            i = i + 2;
        } else {
            return None;
        }
    }
    Some(out)
}

} // verus!

verus! {

/// Round trip of the string encoding: the UTF-16 code units produced for any
/// character sequence decode back to an equal sequence. Every
/// `java.lang.String` the machine builds therefore reads back as the text it
/// was built from.
pub proof fn lemma_utf16_round_trip(s: Seq<char>)
    ensures
        utf16_decode(utf16_encode(s)) == Some(s),
    decreases s.len(),
{
    if s.len() == 0 {
        assert(utf16_encode(s) =~= Seq::<u16>::empty());
        assert(utf16_decode(utf16_encode(s)) =~= Some(Seq::<char>::empty()));
        assert(s =~= Seq::<char>::empty());
    } else {
        let c = s[0];
        let v = c as u32;
        let units = utf16_encode(s);
        lemma_utf16_round_trip(s.skip(1));
        vstd::utf8::char_is_scalar(c);
        if v < 0x10000 {
            assert(units =~= seq![v as u16] + utf16_encode(s.skip(1)));
            assert(units.skip(1) =~= utf16_encode(s.skip(1)));
            assert(units[0] as u32 == v);
            vstd::utf8::char_u32_cast(c, v);
            match utf16_decode(units.skip(1)) {
                Some(rest) => {
                    assert(rest == s.skip(1));
                    assert(seq![(units[0] as u32) as char] + rest =~= s);
                },
                None => {},
            }
        } else {
            let x = v - 0x10000;
            assert(units =~= seq![(0xD800 + (x / 0x400)) as u16, (0xDC00 + (x % 0x400)) as u16]
                + utf16_encode(s.skip(1)));
            assert(units.skip(2) =~= utf16_encode(s.skip(1)));
            vstd::arithmetic::div_mod::lemma_fundamental_div_mod(x as int, 0x400);
            assert(0 <= x % 0x400 < 0x400);
            assert(0 <= x / 0x400 <= 0x3ff);
            let hi = units[0] as u32;
            let lo = units[1] as u32;
            assert(hi == 0xD800 + (x / 0x400));
            assert(lo == 0xDC00 + (x % 0x400));
            let cp = 0x10000 + (hi - 0xD800) * 0x400 + (lo - 0xDC00);
            assert(cp == v as int);
            vstd::utf8::char_u32_cast(c, v);
            match utf16_decode(units.skip(2)) {
                Some(rest) => {
                    assert(rest == s.skip(1));
                    assert(seq![(cp as u32) as char] + rest =~= s);
                },
                None => {},
            }
        }
    }
}

} // verus!
