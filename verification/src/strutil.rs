//! Small string utilities shared by the decoders and parsers: character-exact
//! string equality, extracting the characters of a string slice, rebuilding a
//! string from characters, and bounded decimal/hexadecimal number parsing.

use vstd::prelude::*;
use vstd::std_specs::iter::IteratorSpec;
use vstd::utf8::{encode_utf8, encode_utf8_decode_utf8};

verus! {

broadcast use vstd::string::next_postcondition, vstd::string::axiom_spec_iter;

/// Compares two string slices character for character.
pub fn str_eq(a: &str, b: &str) -> (r: bool)
    ensures
        r == (a@ == b@),
{
    let ab = a.as_bytes();
    let bb = b.as_bytes();
    proof {
        encode_utf8_decode_utf8(a@);
        encode_utf8_decode_utf8(b@);
    }
    if ab.len() != bb.len() {
        return false;
    }
    let n = ab.len();
    let mut i: usize = 0;
    while i < n
        invariant
            n == ab@.len(),
            ab@.len() == bb@.len(),
            i <= n,
            ab@ == encode_utf8(a@),
            bb@ == encode_utf8(b@),
            vstd::utf8::decode_utf8(ab@) == a@,
            vstd::utf8::decode_utf8(bb@) == b@,
            forall|j: int| 0 <= j < i ==> ab@[j] == bb@[j],
        decreases n - i,
    {
        if ab[i] != bb[i] {
            return false;
        }
        i += 1;
    }
    proof {
        assert(ab@ =~= bb@);
    }
    true
}

/// The characters of a string slice, as a vector.
pub fn str_chars(s: &str) -> (r: Vec<char>)
    ensures
        r@ == s@,
{
    let mut it = s.chars();
    let mut r: Vec<char> = Vec::new();
    loop
        invariant
            r@.len() <= s@.len(),
            it.remaining() == s@.skip(r@.len() as int),
            r@ == s@.take(r@.len() as int),
        ensures
            r@ == s@,
        decreases s@.len() - r@.len(),
    {
        match it.next() {
            Some(c) => {
                r.push(c);
                proof {
                    assert(r@ =~= s@.take(r@.len() as int));
                }
            },
            None => {
                proof {
                    assert(r@ =~= s@);
                }
                break ;
            },
        }
    }
    r
}

/// Relies on String's `FromIterator<char>` impl: collecting characters yields
/// the string consisting of exactly those characters in order.
#[verifier::external_body]
pub fn chars_to_string(v: &[char]) -> (r: String)
    ensures
        r@ == v@,
{
    v.iter().collect()
}

/// Relies on char::from_u32: it returns the character with the given code
/// exactly when the code is a Unicode scalar value (not a surrogate and at
/// most 0x10FFFF), and None otherwise.
pub assume_specification[ char::from_u32 ](code: u32) -> (r: Option<char>)
    ensures
        r matches Some(c) ==> c as u32 == code,
        r is Some <==> (code < 0xD800 || (0xE000 <= code && code <= 0x10FFFF)),
;

/// Whether `c` is a digit of the given radix (decimal digits always; letter
/// digits in either case for radix 16).
pub open spec fn is_radix_digit(c: char, radix: u32) -> bool {
    ||| ('0' <= c && c <= '9')
    ||| (radix == 16 && 'a' <= c && c <= 'f')
    ||| (radix == 16 && 'A' <= c && c <= 'F')
}

/// The numeric value of a single digit character.
pub open spec fn radix_digit_value(c: char) -> int {
    if '0' <= c && c <= '9' {
        c as int - '0' as int
    } else if 'a' <= c && c <= 'f' {
        c as int - 'a' as int + 10
    } else {
        c as int - 'A' as int + 10
    }
}

/// Whether every character of `s` is a digit of the given radix.
pub open spec fn all_radix_digits(s: Seq<char>, radix: u32) -> bool {
    forall|i: int| 0 <= i < s.len() ==> is_radix_digit(#[trigger] s[i], radix)
}

/// The number denoted by the digit string `s` in the given radix, most
/// significant digit first.
pub open spec fn radix_value(s: Seq<char>, radix: u32) -> int
    decreases s.len(),
{
    if s.len() == 0 {
        0
    } else {
        radix_value(s.drop_last(), radix) * radix + radix_digit_value(s.last())
    }
}

pub proof fn lemma_radix_value_nonneg(s: Seq<char>, radix: u32)
    requires
        all_radix_digits(s, radix),
        radix >= 2,
    ensures
        radix_value(s, radix) >= 0,
    decreases s.len(),
{
    if s.len() > 0 {
        assert(all_radix_digits(s.drop_last(), radix)) by {
            assert(forall|i: int|
                0 <= i < s.len() - 1 ==> s.drop_last()[i] == #[trigger] s[i]);
        }
        lemma_radix_value_nonneg(s.drop_last(), radix);
    }
}

proof fn lemma_radix_value_take_step(s: Seq<char>, radix: u32, i: int)
    requires
        0 <= i < s.len(),
    ensures
        radix_value(s.take(i + 1), radix)
            == radix_value(s.take(i), radix) * radix + radix_digit_value(s[i]),
{
    assert(s.take(i + 1).drop_last() =~= s.take(i));
    assert(s.take(i + 1).last() == s[i]);
}

proof fn lemma_radix_value_prefix_le(s: Seq<char>, radix: u32, i: int)
    requires
        all_radix_digits(s, radix),
        radix >= 2,
        0 <= i <= s.len(),
    ensures
        radix_value(s.take(i), radix) <= radix_value(s, radix),
    decreases s.len() - i,
{
    if i == s.len() {
        assert(s.take(i) =~= s);
    } else {
        lemma_radix_value_take_step(s, radix, i);
        assert(all_radix_digits(s.take(i), radix)) by {
            assert(forall|j: int| 0 <= j < i ==> s.take(i)[j] == #[trigger] s[j]);
        }
        lemma_radix_value_nonneg(s.take(i), radix);
        let v = radix_value(s.take(i), radix);
        assert(is_radix_digit(s[i], radix));
        assert(v * radix >= v) by (nonlinear_arith)
            requires
                v >= 0,
                radix >= 2,
        ;
        lemma_radix_value_prefix_le(s, radix, i + 1);
    }
}

/// Parses `s` as an unsigned number in the given radix. Returns the value
/// exactly when `s` is nonempty, consists of digits of the radix only, and
/// the value fits in a u32; returns None otherwise.
pub fn parse_u32_radix(s: &[char], radix: u32) -> (r: Option<u32>)
    requires
        radix == 10 || radix == 16,
    ensures
        r matches Some(v) ==> s@.len() > 0 && all_radix_digits(s@, radix)
            && v == radix_value(s@, radix),
        r is None ==> s@.len() == 0 || !all_radix_digits(s@, radix)
            || radix_value(s@, radix) > u32::MAX,
{
    if s.len() == 0 {
        return None;
    }
    let n = s.len();
    let mut acc: u32 = 0;
    let mut i: usize = 0;
    while i < n
        invariant
            radix == 10 || radix == 16,
            n == s@.len(),
            0 < n,
            i <= n,
            all_radix_digits(s@.take(i as int), radix),
            acc == radix_value(s@.take(i as int), radix),
        decreases n - i,
    {
        let c = s[i];
        let d: u32 = if c >= '0' && c <= '9' {
            (c as u32) - 48
        } else if radix == 16 && c >= 'a' && c <= 'f' {
            (c as u32) - 97 + 10
        } else if radix == 16 && c >= 'A' && c <= 'F' {
            (c as u32) - 65 + 10
        } else {
            return None;
        };
        proof {
            assert(is_radix_digit(s@[i as int], radix));
            assert(d == radix_digit_value(s@[i as int]));
            lemma_radix_value_take_step(s@, radix, i as int);
        }
        let shifted = match acc.checked_mul(radix) {
            Some(x) => x,
            None => {
                proof {
                    assert(all_radix_digits(s@, radix) ==> radix_value(s@, radix) > u32::MAX)
                        by {
                        if all_radix_digits(s@, radix) {
                            lemma_radix_value_nonneg(s@.take(i as int), radix);
                            lemma_radix_value_prefix_le(s@, radix, i as int + 1);
                        }
                    }
                }
                return None;
            },
        };
        let next = match shifted.checked_add(d) {
            Some(x) => x,
            None => {
                proof {
                    assert(all_radix_digits(s@, radix) ==> radix_value(s@, radix) > u32::MAX)
                        by {
                        if all_radix_digits(s@, radix) {
                            lemma_radix_value_nonneg(s@.take(i as int), radix);
                            lemma_radix_value_prefix_le(s@, radix, i as int + 1);
                        }
                    }
                }
                return None;
            },
        };
        acc = next;
        i += 1;
        proof {
            assert(forall|j: int|
                0 <= j < i ==> s@.take(i as int)[j] == #[trigger] s@.take(i as int - 1).push(
                    s@[i as int - 1],
                )[j]);
        }
    }
    proof {
        assert(s@.take(n as int) =~= s@);
    }
    Some(acc)
}

} // verus!

