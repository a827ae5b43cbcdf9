//! Text building blocks: characters of a string, decimal numerals.

use vstd::prelude::*;
use vstd::std_specs::iter::IteratorSpec;

verus! {

broadcast use vstd::string::group_string_axioms;

/// `String::push` appends one character to the end of the string.
pub assume_specification[ String::push ](s: &mut String, c: char)
    ensures
        final(s)@ == old(s)@.push(c),
;

/// `==` on `str` holds exactly when both hold the same characters in the same order.
pub assume_specification[ <str as PartialEq>::eq ](a: &str, b: &str) -> (r: bool)
    ensures
        r == (a@ == b@),
;

/// The characters of the text, if there is one.
pub open spec fn spec_text(text: Option<String>) -> Option<Seq<char>> {
    match text {
        Some(t) => Some(t@),
        None => None,
    }
}

/// The characters of `s`, in order.
pub fn chars_of(s: &str) -> (v: Vec<char>)
    ensures
        v@ == s@,
{
    let mut it = s.chars();
    let mut v: Vec<char> = Vec::new();
    loop
        invariant
            v@ + it.remaining() == s@,
            it.decrease() is Some,
        ensures
            v@ == s@,
        decreases it.decrease()->0,
    {
        match it.next() {
            Some(c) => {
                v.push(c);
            },
            None => {
                break ;
            },
        }
    }
    v
}

/// The character for one decimal digit.
pub open spec fn spec_digit_char(d: nat) -> char
    recommends
        d < 10,
{
    ((48 + d) as u8) as char
}

/// The decimal numeral of `n`: no sign, no padding, no leading zero but for zero itself.
pub open spec fn spec_decimal(n: nat) -> Seq<char>
    decreases n,
{
    if n < 10 {
        seq![spec_digit_char(n)]
    } else {
        spec_decimal(n / 10).push(spec_digit_char(n % 10))
    }
}

/// The character for one decimal digit.
pub(crate) fn digit_char(d: u8) -> (c: char)
    requires
        d < 10,
    ensures
        c == spec_digit_char(d as nat),
{
    (48u8 + d) as char
}

/// The decimal numeral of `n`.
pub fn decimal_string(n: u64) -> (s: String)
    ensures
        s@ == spec_decimal(n as nat),
{
    // Digits are produced from the least significant end and then written out in reverse.
    let mut low_first: Vec<char> = Vec::new();
    let mut rest: u64 = n;
    low_first.push(digit_char((rest % 10) as u8));
    rest = rest / 10;
    while rest > 0
        invariant
            low_first@.len() >= 1,
            spec_decimal(n as nat) == if rest > 0 {
                spec_decimal(rest as nat) + low_first@.reverse()
            } else {
                low_first@.reverse()
            },
        decreases rest,
    {
        let ghost before = low_first@;
        let ghost r = rest;
        low_first.push(digit_char((rest % 10) as u8));
        rest = rest / 10;
        proof {
            let d = spec_digit_char((r % 10) as nat);
            assert(before.push(d).reverse() =~= seq![d] + before.reverse());
            if rest > 0 {
                assert(spec_decimal(r as nat) =~= spec_decimal(rest as nat).push(d));
                assert(spec_decimal(rest as nat).push(d) + before.reverse() =~= spec_decimal(
                    rest as nat,
                ) + (seq![d] + before.reverse()));
            } else {
                assert(spec_decimal(r as nat) =~= seq![d]);
            }
        }
    }
    let mut s = String::new();
    let mut i: usize = low_first.len();
    while i > 0
        invariant
            i <= low_first.len(),
            s@ == low_first@.reverse().take(low_first.len() - i),
        decreases i,
    {
        i -= 1;
        s.push(low_first[i]);
        assert(low_first@.reverse().take(low_first.len() - i) =~= low_first@.reverse().take(
            low_first.len() - i - 1,
        ).push(low_first@[i as int]));
    }
    assert(low_first@.reverse().take(low_first.len() as int) =~= low_first@.reverse());
    s
}

/// Whether `c` is a decimal digit.
pub open spec fn spec_is_digit(c: char) -> bool {
    '0' <= c && c <= '9'
}

/// Whether every character of `s` is a decimal digit.
pub open spec fn spec_all_digits(s: Seq<char>) -> bool {
    forall|i: int| 0 <= i < s.len() ==> spec_is_digit(#[trigger] s[i])
}

/// The number that the digits of `s` spell, the most significant first.
pub open spec fn spec_decimal_value(s: Seq<char>) -> nat
    decreases s.len(),
{
    if s.len() == 0 {
        0
    } else {
        spec_decimal_value(s.drop_last()) * 10 + ((s.last() as u8 - 48) as nat)
    }
}

/// The number that a decimal numeral spells, if `s` is one and the number
/// fits in 64 bits. Leading zeros are accepted; a sign is not.
pub open spec fn spec_parse_u64(s: Seq<char>) -> Option<u64> {
    if s.len() > 0 && spec_all_digits(s) && spec_decimal_value(s) <= u64::MAX {
        Some(spec_decimal_value(s) as u64)
    } else {
        None
    }
}

/// A numeral spells at least what any of its beginnings spells.
pub proof fn lemma_decimal_value_grows(s: Seq<char>, n: int)
    requires
        0 <= n <= s.len(),
        spec_all_digits(s),
    ensures
        spec_decimal_value(s.take(n)) <= spec_decimal_value(s),
    decreases s.len() - n,
{
    if n == s.len() {
        assert(s.take(n) =~= s);
    } else {
        lemma_decimal_value_grows(s, n + 1);
        assert(s.take(n + 1).drop_last() =~= s.take(n));
        assert(spec_is_digit(s[n]));
        assert(s.take(n + 1).last() == s[n]);
    }
}

/// The decimal numeral of a number is made of digits and spells the number.
pub proof fn lemma_decimal_round_trip(n: nat)
    ensures
        spec_decimal(n).len() > 0,
        spec_all_digits(spec_decimal(n)),
        spec_decimal_value(spec_decimal(n)) == n,
    decreases n,
{
    if n < 10 {
        let s = spec_decimal(n);
        assert(s.drop_last() =~= Seq::<char>::empty());
        assert(spec_decimal_value(s.drop_last()) == 0);
        assert(s.last() == spec_digit_char(n));
    } else {
        lemma_decimal_round_trip(n / 10);
        let head = spec_decimal(n / 10);
        let s = spec_decimal(n);
        assert(s.drop_last() =~= head);
        assert(s.last() == spec_digit_char(n % 10));
        assert forall|i: int| 0 <= i < s.len() implies spec_is_digit(#[trigger] s[i]) by {
            if i < head.len() {
                assert(s[i] == head[i]);
            }
        }
    }
}

/// Reads a decimal numeral.
pub fn parse_u64(s: &str) -> (n: Option<u64>)
    ensures
        n == spec_parse_u64(s@),
{
    let chars = chars_of(s);
    if chars.len() == 0 {
        return None;
    }
    let mut value: u64 = 0;
    let mut i: usize = 0;
    assert(chars@.take(0) =~= Seq::<char>::empty());
    while i < chars.len()
        invariant
            i <= chars.len(),
            chars@ == s@,
            spec_all_digits(chars@.take(i as int)),
            value == spec_decimal_value(chars@.take(i as int)),
        decreases chars.len() - i,
    {
        let c: char = chars[i];
        proof {
            assert(chars@.take(i + 1).drop_last() =~= chars@.take(i as int));
            assert(chars@.take(i + 1).last() == c);
        }
        if !('0' <= c && c <= '9') {
            assert(!spec_is_digit(chars@[i as int]));
            return None;
        }
        let digit: u64 = ((c as u8) - 48) as u64;
        proof {
            assert forall|j: int| 0 <= j < i + 1 implies spec_is_digit(
                #[trigger] chars@.take(i + 1)[j],
            ) by {
                if j < i {
                    assert(chars@.take(i as int)[j] == chars@[j]);
                }
            }
            if spec_all_digits(chars@) {
                lemma_decimal_value_grows(chars@, i + 1);
            }
        }
        if value > (u64::MAX - digit) / 10 {
            return None;
        }
        value = value * 10 + digit;
        i += 1;
    }
    assert(chars@.take(chars.len() as int) =~= chars@);
    Some(value)
}

} // verus!
