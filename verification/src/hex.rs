//! Lowercase hexadecimal rendering of digests.

use vstd::prelude::*;

verus! {

/// The lowercase hexadecimal character for a value below sixteen.
pub open spec fn spec_hex_digit(v: nat) -> char
    recommends
        v < 16,
{
    if v < 10 {
        ((48 + v) as u8) as char
    } else {
        ((87 + v) as u8) as char
    }
}

/// Two lowercase hexadecimal characters for each byte, the high half first.
pub open spec fn spec_hex_of_bytes(bytes: Seq<u8>) -> Seq<char> {
    Seq::new(
        2 * bytes.len(),
        |i: int|
            if i % 2 == 0 {
                spec_hex_digit((bytes[i / 2] / 16) as nat)
            } else {
                spec_hex_digit((bytes[i / 2] % 16) as nat)
            },
    )
}

/// The four-bit group of `v` at position `k`, counted from the most significant group.
pub open spec fn spec_nibble(v: u64, k: int) -> nat
    recommends
        0 <= k < 16,
{
    ((v >> ((60 - 4 * k) as u64)) & 0xf) as nat
}

/// Sixteen lowercase hexadecimal characters, the most significant first, zeros kept.
pub open spec fn spec_hex_of_u64(v: u64) -> Seq<char> {
    Seq::new(16, |k: int| spec_hex_digit(spec_nibble(v, k)))
}

/// Whether `c` is one of `0`-`9` or `a`-`f`.
pub open spec fn spec_is_lower_hex(c: char) -> bool {
    ('0' <= c && c <= '9') || ('a' <= c && c <= 'f')
}

/// Whether every character of `s` is a lowercase hexadecimal digit.
pub open spec fn spec_all_lower_hex(s: Seq<char>) -> bool {
    forall|i: int| 0 <= i < s.len() ==> spec_is_lower_hex(#[trigger] s[i])
}

/// The lowercase hexadecimal character for a value below sixteen.
fn hex_digit(v: u8) -> (c: char)
    requires
        v < 16,
    ensures
        c == spec_hex_digit(v as nat),
        spec_is_lower_hex(c),
{
    if v < 10 {
        (48u8 + v) as char
    } else {
        (87u8 + v) as char
    }
}

/// Renders `bytes` as lowercase hexadecimal, two characters per byte.
pub fn hex_of_bytes(bytes: &[u8]) -> (s: String)
    ensures
        s@ == spec_hex_of_bytes(bytes@),
        s@.len() == 2 * bytes@.len(),
        spec_all_lower_hex(s@),
{
    let mut s = String::new();
    let mut i: usize = 0;
    while i < bytes.len()
        invariant
            i <= bytes.len(),
            s@ == spec_hex_of_bytes(bytes@.take(i as int)),
            spec_all_lower_hex(s@),
        decreases bytes.len() - i,
    {
        let b: u8 = bytes[i];
        let ghost before = s@;
        s.push(hex_digit(b / 16));
        s.push(hex_digit(b % 16));
        i += 1;
        assert(s@ =~= spec_hex_of_bytes(bytes@.take(i as int)));
    }
    assert(bytes@.take(bytes.len() as int) =~= bytes@);
    s
}

/// Renders `v` as sixteen lowercase hexadecimal characters.
pub fn hex_of_u64(v: u64) -> (s: String)
    ensures
        s@ == spec_hex_of_u64(v),
        s@.len() == 16,
        spec_all_lower_hex(s@),
{
    let mut s = String::new();
    let mut k: u32 = 0;
    while k < 16
        invariant
            k <= 16,
            s@ == spec_hex_of_u64(v).take(k as int),
            spec_all_lower_hex(s@),
        decreases 16 - k,
    {
        let shift: u32 = 60 - 4 * k;
        let group: u64 = (v >> shift) & 0xf;
        assert(group < 16) by (bit_vector)
            requires
                group == (v >> shift) & 0xf,
        ;
        assert(group == spec_nibble(v, k as int));
        s.push(hex_digit(group as u8));
        k += 1;
        assert(s@ =~= spec_hex_of_u64(v).take(k as int));
    }
    assert(spec_hex_of_u64(v).take(16) =~= spec_hex_of_u64(v));
    s
}

} // verus!
