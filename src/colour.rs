//! Colours: conversion between a float channel, held as its IEEE-754
//! single-precision bit pattern, and an 8-bit channel, and between channels
//! and `#rrggbb` / `#rrggbbaa` strings.
//!
//! A float channel `c` becomes the byte `round(c * 255)`, rounding halves
//! upwards (away from zero), computed exactly on the bit pattern and clamped
//! to `0..=255` (NaN gives 0). A byte `b` becomes the float nearest to
//! `b / 255`.

use vstd::prelude::*;
use vstd::string::{StrSliceExecFns, StringExecFns};
use vstd::arithmetic::power2::{lemma2_to64, lemma2_to64_rest, lemma_pow2_unfold, pow2};

verus! {

/// The sign bit of a float bit pattern.
pub open spec fn spec_sign(x: u32) -> u32 {
    x >> 31
}

/// The biased exponent of a float bit pattern.
pub open spec fn spec_exponent(x: u32) -> u32 {
    (x >> 23) & 0xff
}

/// The stored mantissa of a float bit pattern.
pub open spec fn spec_mantissa(x: u32) -> u32 {
    x & 0x7f_ffff
}

/// The byte for the float channel with bit pattern `x`: `round(c * 255)`
/// with halves rounded up, clamped to `0..=255`; NaN gives 0. For a finite,
/// positive `c` below one, `c` is `sig / 2^s`, and the rounded product is
/// `floor((510 * sig + 2^s) / 2^(s + 1))`.
pub open spec fn spec_channel(x: u32) -> u8 {
    let e = spec_exponent(x);
    let m = spec_mantissa(x);
    if e == 0xff {
        if m != 0 || spec_sign(x) == 1 {
            0
        } else {
            255
        }
    } else if spec_sign(x) == 1 {
        0
    } else if e >= 127 {
        255
    } else {
        let sig: nat = if e == 0 { m as nat } else { (m + 0x80_0000) as nat };
        let s: nat = if e == 0 { 149 } else { (150 - e) as nat };
        ((510 * sig + pow2(s)) / pow2(s + 1)) as u8
    }
}

/// The smallest `k` from `k0` on (and below 40) for which `b * 2^k` reaches
/// `255 * 2^23`: the scale at which `b / 255` has 24 significant bits.
pub open spec fn spec_channel_scale(b: nat, k: nat) -> nat
    decreases 40 - k,
{
    if k >= 40 || b * pow2(k) >= 255 * pow2(23) {
        k
    } else {
        spec_channel_scale(b, k + 1)
    }
}

/// The bit pattern of the float nearest to `b / 255`.
pub open spec fn spec_channel_bits(b: u8) -> u32 {
    if b == 0 {
        0
    } else if b == 255 {
        0x3f80_0000
    } else {
        let k = spec_channel_scale(b as nat, 24);
        let sig = (2 * b * pow2(k) + 255) / 510;
        ((150 - k) * 0x80_0000 + sig - 0x80_0000) as u32
    }
}

/// Converts a float channel to a byte, as `spec_channel` says.
pub fn channel_from_bits(x: u32) -> (r: u8)
    ensures
        r == spec_channel(x),
{
    let sign = x >> 31;
    let e = (x >> 23) & 0xff;
    let m = x & 0x7f_ffff;
    if e == 0xff {
        if m != 0 || sign == 1 {
            0
        } else {
            255
        }
    } else if sign == 1 {
        0
    } else if e >= 127 {
        255
    } else {
        let sig: u64 = if e == 0 { m as u64 } else { m as u64 + 0x80_0000 };
        let s: u32 = if e == 0 { 149 } else { 150 - e };
        assert(x & 0x7f_ffff <= 0x7f_ffff) by (bit_vector);
        assert(sig < 0x100_0000);
        if s >= 40 {
            proof {
                lemma_pow2_monotone_from(33, s as nat);
                lemma_pow2_unfold((s + 1) as nat);
                lemma2_to64();
                lemma2_to64_rest();
                let ps = pow2(s as nat) as int;
                let ps1 = pow2((s + 1) as nat) as int;
                assert((510 * sig + ps) / ps1 == 0) by (nonlinear_arith)
                    requires
                        510 * sig < ps,
                        ps1 == 2 * ps,
                ;
            }
            0
        } else {
            let mut p: u64 = 1;
            let mut i: u32 = 0;
            proof {
                lemma2_to64();
            }
            while i < s
                invariant
                    i <= s < 40,
                    p >= 1,
                    p == pow2(i as nat),
                    p <= 0x80_0000_0000,
                decreases s - i,
            {
                proof {
                    lemma_pow2_unfold((i + 1) as nat);
                    lemma_pow2_monotone_from((i + 1) as nat, 39);
                    lemma2_to64();
                lemma2_to64_rest();
                }
                p = p * 2;
                i = i + 1;
            }
            proof {
                lemma_pow2_unfold((s + 1) as nat);
            }
            ((510 * sig + p) / (2 * p)) as u8
        }
    }
}

proof fn lemma_pow2_monotone_from(a: nat, b: nat)
    requires
        a <= b,
    ensures
        pow2(a) <= pow2(b),
    decreases b - a,
{
    if a < b {
        lemma_pow2_monotone_from(a, (b - 1) as nat);
        lemma_pow2_unfold(b);
    }
}

proof fn lemma_float_fields(e: u32, m: u32, x: u32) by (bit_vector)
    requires
        e < 128,
        m < 0x80_0000,
        x == (e * 0x80_0000 + m) as u32,
    ensures
        (x >> 23) & 0xff == e,
        x & 0x7f_ffff == m,
        x >> 31 == 0,
{
}

proof fn lemma_scale_bounds(b: nat, k: nat)
    requires
        1 <= b <= 254,
        24 <= k <= 31,
        k == 24 || b * pow2((k - 1) as nat) < 255 * pow2(23),
    ensures
        ({
            let s = spec_channel_scale(b, k);
            &&& 24 <= s <= 31
            &&& b * pow2(s) >= 255 * pow2(23)
            &&& (s == 24 || b * pow2((s - 1) as nat) < 255 * pow2(23))
        }),
    decreases 31 - k,
{
    lemma2_to64();
    if b * pow2(k) < 255 * pow2(23) {
        if k == 31 {
            assert(b * pow2(31) >= pow2(31)) by (nonlinear_arith)
                requires
                    b >= 1,
            ;
            assert(false);
        }
        lemma_scale_bounds(b, k + 1);
    }
}

/// A byte turned into a float channel and back is the same byte: the two
/// conversions follow one convention.
pub proof fn lemma_channel_round_trip(b: u8)
    ensures
        spec_channel(spec_channel_bits(b)) == b,
{
    lemma2_to64();
    lemma2_to64_rest();
    if b == 0 {
        assert(0u32 >> 31 == 0 && (0u32 >> 23) & 0xff == 0 && 0u32 & 0x7f_ffff == 0) by (bit_vector);
        lemma_pow2_unfold(150);
        vstd::arithmetic::power2::lemma_pow2_pos(149);
        let x = pow2(149) as int;
        assert(x / (2 * x) == 0) by (nonlinear_arith)
            requires
                x > 0,
        ;
    } else if b == 255 {
        assert(0x3f80_0000u32 >> 31 == 0 && (0x3f80_0000u32 >> 23) & 0xff == 127 && 0x3f80_0000u32 & 0x7f_ffff
            == 0) by (bit_vector);
    } else {
        lemma_scale_bounds(b as nat, 24);
        let k = spec_channel_scale(b as nat, 24);
        let p = pow2(k) as int;
        let bp = b * p;
        let sig = (2 * b * p + 255) / 510;
        assert(p >= 0x100_0000) by {
            lemma_pow2_monotone_from(24, k);
        }
        assert(2 * b * p == 2 * bp) by (nonlinear_arith)
            requires
                bp == b * p,
        ;
        assert(bp <= 254 * 0x100_0000) by {
            if k == 24 {
                assert(bp <= 254 * 0x100_0000) by (nonlinear_arith)
                    requires
                        bp == b * p,
                        p == 0x100_0000,
                        b <= 254,
                ;
            } else {
                let r = pow2((k - 24) as nat) as int;
                vstd::arithmetic::power2::lemma_pow2_adds((k - 24) as nat, 23);
                vstd::arithmetic::power2::lemma_pow2_adds((k - 24) as nat, 24);
                assert(((k - 24) + 23) as nat == (k - 1) as nat);
                assert(((k - 24) + 24) as nat == k);
                let t = b * r;
                assert(b * pow2((k - 1) as nat) == t * 0x80_0000) by (nonlinear_arith)
                    requires
                        pow2((k - 1) as nat) == r * 0x80_0000,
                        t == b * r,
                ;
                assert(t <= 254) by (nonlinear_arith)
                    requires
                        t * 0x80_0000 < 255 * 0x80_0000,
                ;
                assert(bp == t * 0x100_0000) by (nonlinear_arith)
                    requires
                        p == r * 0x100_0000,
                        t == b * r,
                        bp == b * p,
                ;
            }
        }
        assert(bp >= 255 * 0x80_0000);
        assert(0x80_0000 <= sig < 0x100_0000);
        let e = (150 - k) as u32;
        let m = (sig - 0x80_0000) as u32;
        assert(spec_channel_bits(b) == (e * 0x80_0000 + m) as u32);
        lemma_float_fields(e, m, spec_channel_bits(b));
        assert(e * 0x80_0000 + m == (150 - k) * 0x80_0000 + sig - 0x80_0000);
        lemma_pow2_unfold(k + 1);
        let x = 510 * sig + p;
        assert(x / (2 * p) == b) by (nonlinear_arith)
            requires
                510 * sig <= 2 * bp + 255,
                510 * sig >= 2 * bp - 254,
                p >= 0x100_0000,
                bp == b * p,
                x == 510 * sig + p,
        ;
    }
}

/// Converts a byte to the float channel nearest to `b / 255`.
pub fn channel_to_bits(b: u8) -> (r: u32)
    ensures
        r == spec_channel_bits(b),
{
    if b == 0 {
        return 0;
    }
    if b == 255 {
        return 0x3f80_0000;
    }
    let mut k: u32 = 24;
    let mut p: u64 = 0x100_0000;
    let mut bp: u64 = (b as u64) * 0x100_0000;
    proof {
        lemma2_to64();
        lemma2_to64_rest();
    }
    while bp < 255 * 0x80_0000
        invariant
            24 <= k <= 31,
            1 <= b <= 254,
            p == pow2(k as nat),
            bp == b * p,
            bp >= p,
            bp <= 255 * 0x8000_0000,
            spec_channel_scale(b as nat, 24) == spec_channel_scale(b as nat, k as nat),
            pow2(23) == 0x80_0000,
            pow2(31) == 0x8000_0000,
        decreases 31 - k,
    {
        proof {
            if k == 31 {
                assert(false);
            }
            lemma_pow2_unfold((k + 1) as nat);
            lemma_pow2_monotone_from((k + 1) as nat, 31);
            assert(b * (p * 2) == (b * p) * 2) by (nonlinear_arith);
        }
        p = p * 2;
        bp = bp * 2;
        k = k + 1;
    }
    assert(spec_channel_scale(b as nat, k as nat) == k);
    let sig = (2 * bp + 255) / 510;
    proof {
        assert(2 * b * p == 2 * bp) by (nonlinear_arith)
            requires
                bp == b * p,
        ;
        assert(sig >= 0x80_0000) by (nonlinear_arith)
            requires
                bp >= 255 * 0x80_0000,
                sig == (2 * bp + 255) / 510,
        ;
    }
    ((150 - k as u64) * 0x80_0000 + sig - 0x80_0000) as u32
}

/// The lowercase hexadecimal digit for `n` (below 16).
pub open spec fn spec_hex_char(n: u8) -> char {
    if n == 0 {
        '0'
    } else
    if n == 1 {
        '1'
    } else
    if n == 2 {
        '2'
    } else
    if n == 3 {
        '3'
    } else
    if n == 4 {
        '4'
    } else
    if n == 5 {
        '5'
    } else
    if n == 6 {
        '6'
    } else
    if n == 7 {
        '7'
    } else
    if n == 8 {
        '8'
    } else
    if n == 9 {
        '9'
    } else
    if n == 10 {
        'a'
    } else
    if n == 11 {
        'b'
    } else
    if n == 12 {
        'c'
    } else
    if n == 13 {
        'd'
    } else
    if n == 14 {
        'e'
    } else {
        'f'
    }
}

/// The value of a hexadecimal digit, in either case.
pub open spec fn spec_hex_value(c: char) -> Option<u8> {
    let v = c as u32;
    if 48 <= v <= 57 {
        Some((v - 48) as u8)
    } else if 97 <= v <= 102 {
        Some((v - 87) as u8)
    } else if 65 <= v <= 70 {
        Some((v - 55) as u8)
    } else {
        None
    }
}

/// Two lowercase hexadecimal digits for a byte, the high one first.
pub open spec fn spec_hex_pair(b: u8) -> Seq<char> {
    seq![spec_hex_char(b / 16), spec_hex_char(b % 16)]
}

/// The bytes of a colour's channels, most significant first.
pub open spec fn spec_channels(v: Seq<u32>) -> Seq<u8> {
    Seq::new(v.len(), |i: int| spec_channel(v[i]))
}

/// `#` and two lowercase hexadecimal digits for each byte.
pub open spec fn spec_hex_string(bytes: Seq<u8>) -> Seq<char>
    decreases bytes.len(),
{
    if bytes.len() == 0 {
        seq!['#']
    } else {
        spec_hex_string(bytes.subrange(0, bytes.len() - 1)) + spec_hex_pair(bytes[bytes.len() - 1])
    }
}

/// The channel bytes that a colour string spells: `#` followed by three or
/// four pairs of hexadecimal digits (in either case), and nothing else.
pub open spec fn spec_parse_colour(s: Seq<char>) -> Option<Seq<u8>> {
    if (s.len() == 7 || s.len() == 9) && s[0] == '#' && (forall|i: int|
        1 <= i < s.len() ==> #[trigger] spec_hex_value(s[i]) is Some) {
        Some(
            Seq::new(
                ((s.len() - 1) / 2) as nat,
                |i: int| (spec_hex_value(s[1 + 2 * i])->0 * 16 + spec_hex_value(s[2 + 2 * i])->0) as u8,
            ),
        )
    } else {
        None
    }
}

proof fn lemma_hex_char_value(n: u8)
    requires
        n < 16,
    ensures
        spec_hex_value(spec_hex_char(n)) == Some(n),
{
}

proof fn lemma_hex_string_shape(bytes: Seq<u8>)
    ensures
        spec_hex_string(bytes).len() == 1 + 2 * bytes.len(),
        spec_hex_string(bytes)[0] == '#',
        forall|i: int|
            0 <= i < bytes.len() ==> spec_hex_string(bytes)[1 + 2 * i] == spec_hex_char(#[trigger] bytes[i] / 16)
                && spec_hex_string(bytes)[2 + 2 * i] == spec_hex_char(bytes[i] % 16),
    decreases bytes.len(),
{
    if bytes.len() > 0 {
        let p = bytes.subrange(0, bytes.len() - 1);
        lemma_hex_string_shape(p);
        assert forall|i: int| 0 <= i < bytes.len() implies spec_hex_string(bytes)[1 + 2 * i] == spec_hex_char(
            #[trigger] bytes[i] / 16,
        ) && spec_hex_string(bytes)[2 + 2 * i] == spec_hex_char(bytes[i] % 16) by {
            if i < bytes.len() - 1 {
                assert(p[i] == bytes[i]);
            }
        }
    }
}

/// Reading back the colour string of three or four channel bytes gives
/// those bytes.
pub proof fn lemma_colour_string_round_trip(bytes: Seq<u8>)
    requires
        bytes.len() == 3 || bytes.len() == 4,
    ensures
        spec_parse_colour(spec_hex_string(bytes)) == Some(bytes),
{
    let s = spec_hex_string(bytes);
    lemma_hex_string_shape(bytes);
    assert forall|i: int| 1 <= i < s.len() implies #[trigger] spec_hex_value(s[i]) is Some by {
        let j = (i - 1) / 2;
        if (i - 1) % 2 == 0 {
            assert(i == 1 + 2 * j);
            lemma_hex_char_value(bytes[j] / 16);
        } else {
            assert(i == 2 + 2 * j);
            lemma_hex_char_value(bytes[j] % 16);
        }
    }
    let parsed = spec_parse_colour(s)->0;
    assert forall|i: int| 0 <= i < bytes.len() implies parsed[i] == bytes[i] by {
        lemma_hex_char_value(bytes[i] / 16);
        lemma_hex_char_value(bytes[i] % 16);
    }
    assert(parsed =~= bytes);
}

/// The channel bytes of float channels, turned back into float channels,
/// read as the same bytes: a colour keeps its string through a float vector.
pub proof fn lemma_channels_round_trip(bytes: Seq<u8>)
    ensures
        spec_channels(Seq::new(bytes.len(), |i: int| spec_channel_bits(bytes[i]))) == bytes,
{
    let v = Seq::new(bytes.len(), |i: int| spec_channel_bits(bytes[i]));
    assert forall|i: int| 0 <= i < bytes.len() implies spec_channels(v)[i] == bytes[i] by {
        lemma_channel_round_trip(bytes[i]);
    }
    assert(spec_channels(v) =~= bytes);
}

/// The digit for `n` (below 16) as a string.
fn hex_digit(n: u8) -> (r: &'static str)
    requires
        n < 16,
    ensures
        r@ == seq![spec_hex_char(n)],
{
    match n {
        0 => {
            proof {
                reveal_strlit("0");
            }
            "0"
        },
        1 => {
            proof {
                reveal_strlit("1");
            }
            "1"
        },
        2 => {
            proof {
                reveal_strlit("2");
            }
            "2"
        },
        3 => {
            proof {
                reveal_strlit("3");
            }
            "3"
        },
        4 => {
            proof {
                reveal_strlit("4");
            }
            "4"
        },
        5 => {
            proof {
                reveal_strlit("5");
            }
            "5"
        },
        6 => {
            proof {
                reveal_strlit("6");
            }
            "6"
        },
        7 => {
            proof {
                reveal_strlit("7");
            }
            "7"
        },
        8 => {
            proof {
                reveal_strlit("8");
            }
            "8"
        },
        9 => {
            proof {
                reveal_strlit("9");
            }
            "9"
        },
        10 => {
            proof {
                reveal_strlit("a");
            }
            "a"
        },
        11 => {
            proof {
                reveal_strlit("b");
            }
            "b"
        },
        12 => {
            proof {
                reveal_strlit("c");
            }
            "c"
        },
        13 => {
            proof {
                reveal_strlit("d");
            }
            "d"
        },
        14 => {
            proof {
                reveal_strlit("e");
            }
            "e"
        },
        _ => {
            proof {
                reveal_strlit("f");
            }
            "f"
        },
    }
}

/// The colour string for the float channels `v`: `#` and two lowercase
/// hexadecimal digits for the byte of each channel.
pub fn colour_string(v: &Vec<u32>) -> (r: String)
    ensures
        r@ == spec_hex_string(spec_channels(v@)),
{
    proof {
        reveal_strlit("#");
    }
    let mut s = "#".to_owned();
    let mut i: usize = 0;
    while i < v.len()
        invariant
            i <= v@.len(),
            s@ == spec_hex_string(spec_channels(v@.take(i as int))),
        decreases v@.len() - i,
    {
        let b = channel_from_bits(v[i]);
        s.append(hex_digit(b / 16));
        s.append(hex_digit(b % 16));
        proof {
            let c = spec_channels(v@.take(i + 1));
            assert(c.subrange(0, i as int) =~= spec_channels(v@.take(i as int)));
            assert(s@ =~= spec_hex_string(c));
        }
        i = i + 1;
    }
    assert(v@.take(v@.len() as int) =~= v@);
    s
}

/// The value of a hexadecimal digit, in either case.
fn hex_value(c: char) -> (r: Option<u8>)
    ensures
        r == spec_hex_value(c),
{
    let v = c as u32;
    if 48 <= v && v <= 57 {
        Some((v - 48) as u8)
    } else if 97 <= v && v <= 102 {
        Some((v - 87) as u8)
    } else if 65 <= v && v <= 70 {
        Some((v - 55) as u8)
    } else {
        None
    }
}

/// Parses a colour string into its channel bytes, as `spec_parse_colour`
/// says.
pub fn parse_colour(s: &String) -> (r: Option<Vec<u8>>)
    ensures
        match r {
            Some(v) => spec_parse_colour(s@) == Some(v@),
            None => spec_parse_colour(s@) is None,
        },
{
    let t = s.as_str();
    let n = t.unicode_len();
    if n != 7 && n != 9 {
        return None;
    }
    if t.get_char(0) != '#' {
        return None;
    }
    let mut digits: Vec<u8> = Vec::new();
    let mut i: usize = 1;
    while i < n
        invariant
            1 <= i <= n,
            n == s@.len(),
            t@ == s@,
            digits@.len() == i - 1,
            forall|j: int| 1 <= j < i ==> #[trigger] spec_hex_value(s@[j]) == Some(digits@[j - 1]),
        decreases n - i,
    {
        match hex_value(t.get_char(i)) {
            Some(d) => digits.push(d),
            None => return None,
        }
        i = i + 1;
    }
    let mut out: Vec<u8> = Vec::new();
    let mut k: usize = 0;
    while k < (n - 1) / 2
        invariant
            k <= (n - 1) / 2,
            n == s@.len(),
            n == 7 || n == 9,
            digits@.len() == n - 1,
            forall|j: int| 1 <= j < n ==> #[trigger] spec_hex_value(s@[j]) == Some(digits@[j - 1]),
            out@ =~= Seq::new(
                k as nat,
                |j: int| (spec_hex_value(s@[1 + 2 * j])->0 * 16 + spec_hex_value(s@[2 + 2 * j])->0) as u8,
            ),
        decreases (n - 1) / 2 - k,
    {
        let hi = digits[2 * k];
        let lo = digits[2 * k + 1];
        assert(spec_hex_value(s@[1 + 2 * k]) == Some(hi));
        assert(spec_hex_value(s@[2 + 2 * k]) == Some(lo));
        out.push(hi * 16 + lo);
        k = k + 1;
    }
    Some(out)
}

} // verus!
