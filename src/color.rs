use vstd::arithmetic::power2::{
    lemma_pow2_adds,
    lemma2_to64,
    lemma2_to64_rest,
    lemma_pow2_pos,
    lemma_pow2_strictly_increases,
    lemma_pow2_unfold,
    pow2,
};
use vstd::bits::{lemma_u64_pow2_no_overflow, lemma_u64_shl_is_mul, lemma_u64_shr_is_div};
use vstd::prelude::*;
use vstd::string::StringExecFns;

verus! {

/// A colour as stored in a swatch file. Every channel is the bit pattern of a
/// 32-bit IEEE-754 float, so values pass through load and save unchanged.
/// Only `Rgb` can be shown and edited; the others are carried as they are.
#[derive(Clone, Copy, Debug, PartialEq, Eq, Structural)]
pub enum ColorValue {
    Cmyk(u32, u32, u32, u32),
    Rgb(u32, u32, u32),
    Lab(u32, u32, u32),
    Gray(u32),
}

/// How a swatch behaves in a document; kept as it was read.
#[derive(Clone, Copy, Debug, PartialEq, Eq, Structural)]
pub enum ColorType {
    Global,
    Spot,
    Normal,
}

/// The 8-bit form of a colour used for drawing and for colour pickers.
#[derive(Clone, Copy, Debug, PartialEq, Eq, Structural)]
pub struct DisplayColor {
    pub r: u8,
    pub g: u8,
    pub b: u8,
}

/// Bit pattern of the float 1.0.
pub const ONE_BITS: u32 = 0x3F80_0000;

/// Biased exponent field of a float bit pattern.
pub open spec fn exponent_field(bits: u32) -> nat {
    ((bits as nat) / 0x80_0000) % 0x100
}

/// Fraction field of a float bit pattern.
pub open spec fn fraction_field(bits: u32) -> nat {
    (bits as nat) % 0x80_0000
}

/// A finite non-negative float `bits` below 1.0 is `significand(bits) / 2^scale(bits)`.
pub open spec fn significand(bits: u32) -> nat {
    if exponent_field(bits) == 0 {
        fraction_field(bits)
    } else {
        fraction_field(bits) + 0x80_0000
    }
}

pub open spec fn scale(bits: u32) -> nat {
    if exponent_field(bits) == 0 {
        149
    } else {
        (150 - exponent_field(bits)) as nat
    }
}

/// `round(clamp(x, 0, 1) * 255)` for the float `x` with pattern `bits`, halves
/// rounded up. Negative values and NaN give 0, values from 1.0 up give 255.
pub open spec fn channel_to_byte(bits: u32) -> nat {
    if bits >= 0x8000_0000 || bits > 0x7F80_0000 {
        0
    } else if bits >= ONE_BITS {
        255
    } else {
        (510 * significand(bits) + pow2(scale(bits))) / pow2(scale(bits) + 1)
    }
}

/// The exponent shift `s` at which `n * 2^s` first reaches `255 * 2^23`, looking
/// from `s` upwards; then `n / 255 == (n * 2^s / 255) / 2^s` with a significand
/// in `[2^23, 2^24)`.
pub open spec fn unit_scale(n: nat, s: nat) -> nat
    decreases 64 - s,
{
    if s >= 64 || n * pow2(s) >= 255 * 0x80_0000 {
        s
    } else {
        unit_scale(n, s + 1)
    }
}

/// The float nearest to `n / 255` (halves rounded up), as a bit pattern.
pub open spec fn byte_to_channel(n: u8) -> nat {
    if n == 0 {
        0
    } else if n == 255 {
        ONE_BITS as nat
    } else {
        let s = unit_scale(n as nat, 24);
        let m = (2 * (n as nat) * pow2(s) + 255) / 510;
        ((150 - s) as nat) * 0x80_0000 + (m - 0x80_0000) as nat
    }
}

pub open spec fn to_display_spec(c: ColorValue) -> Option<DisplayColor> {
    match c {
        ColorValue::Rgb(r, g, b) => Some(
            DisplayColor {
                r: channel_to_byte(r) as u8,
                g: channel_to_byte(g) as u8,
                b: channel_to_byte(b) as u8,
            },
        ),
        _ => None,
    }
}

pub open spec fn from_display_spec(d: DisplayColor) -> ColorValue {
    ColorValue::Rgb(
        byte_to_channel(d.r) as u32,
        byte_to_channel(d.g) as u32,
        byte_to_channel(d.b) as u32,
    )
}

proof fn lemma_small_value_rounds_to_zero(a: nat, s: nat)
    requires
        s >= 40,
        a < 0x2_0000_0000,
    ensures
        (2 * a + pow2(s)) / pow2(s + 1) == 0,
{
    lemma2_to64_rest();
    if s > 40 {
        lemma_pow2_strictly_increases(40, s);
    }
    lemma_pow2_unfold(s + 1);
    let d = pow2(s + 1);
    assert(0 <= 2 * a + pow2(s) < d);
    assert((2 * a + pow2(s)) / d == 0) by (nonlinear_arith)
        requires
            0 <= 2 * a + pow2(s) < d,
    ;
}

/// Maps one channel to its 8-bit display value.
pub fn channel_byte(bits: u32) -> (r: u8)
    ensures
        r as nat == channel_to_byte(bits),
{
    if bits >= 0x8000_0000 || bits > 0x7F80_0000 {
        return 0;
    }
    if bits >= ONE_BITS {
        return 255;
    }
    let exp: u32 = (bits / 0x80_0000) % 0x100;
    let frac: u32 = bits % 0x80_0000;
    let m: u64 = if exp == 0 {
        frac as u64
    } else {
        frac as u64 + 0x80_0000
    };
    let s: u64 = if exp == 0 {
        149
    } else {
        150 - exp as u64
    };
    assert(exp < 127) by {
        assert((bits as nat) / 0x80_0000 < 127);
    }
    assert(m == significand(bits) && s == scale(bits));
    let a: u64 = 255 * m;
    assert(2 * (a as nat) == 510 * significand(bits));
    assert(channel_to_byte(bits) == (510 * significand(bits) + pow2(scale(bits))) / pow2(scale(bits) + 1));
    if s >= 40 {
        proof {
            lemma_small_value_rounds_to_zero(a as nat, s as nat);
        }
        return 0;
    }
    proof {
        lemma_u64_pow2_no_overflow(s as nat);
        lemma_u64_shl_is_mul(1, s);
        lemma2_to64_rest();
        lemma_pow2_strictly_increases(s as nat, 40);
        lemma_pow2_unfold(s as nat + 1);
    }
    let x: u64 = 2 * a + (1u64 << s);
    proof {
        lemma_u64_shr_is_div(x, (s + 1) as u64);
    }
    let q: u64 = x >> (s + 1);
    proof {
        let d: int = pow2(s as nat) as int;
        lemma2_to64();
        if s > 24 {
            lemma_pow2_strictly_increases(24, s as nat);
        }
        assert(d >= 0x100_0000);
        assert(a < 255 * 0x100_0000);
        assert(x < 512 * d) by (nonlinear_arith)
            requires
                x as int == 2 * a + d,
                a < 255 * 0x100_0000,
                d >= 0x100_0000,
        ;
        assert(channel_to_byte(bits) == x as int / (2 * d));
        assert(q < 256) by (nonlinear_arith)
            requires
                q as int == x as int / (2 * d) as int,
                x < 512 * d,
                d > 0,
        ;
    }
    q as u8
}

/// Maps an 8-bit display value back to a channel: the float nearest `n / 255`.
pub fn byte_channel(n: u8) -> (r: u32)
    ensures
        r as nat == byte_to_channel(n),
{
    if n == 0 {
        return 0;
    }
    if n == 255 {
        return ONE_BITS;
    }
    proof {
        lemma2_to64();
        lemma2_to64_rest();
    }
    let mut s: u64 = 24;
    let mut p: u64 = n as u64 * 0x100_0000;
    while p < 255 * 0x80_0000
        invariant
            1 <= n <= 254,
            24 <= s <= 31,
            p == n as nat * pow2(s as nat),
            p < 255 * 0x100_0000,
            unit_scale(n as nat, 24) == unit_scale(n as nat, s as nat),
            pow2(31) == 0x8000_0000,
        decreases 31 - s,
    {
        proof {
            assert(p >= pow2(s as nat)) by (nonlinear_arith)
                requires
                    p == n as nat * pow2(s as nat),
                    n >= 1,
            ;
            if s >= 31 {
                if s > 31 {
                    lemma_pow2_strictly_increases(31, s as nat);
                }
                assert(false);
            }
            lemma_pow2_unfold(s as nat + 1);
            assert(2 * p == n as nat * pow2(s as nat + 1)) by (nonlinear_arith)
                requires
                    p == n as nat * pow2(s as nat),
                    pow2(s as nat + 1) == 2 * pow2(s as nat),
            ;
        }
        p = p * 2;
        s = s + 1;
    }
    let m: u64 = (2 * p + 255) / 510;
    proof {
        assert(unit_scale(n as nat, s as nat) == s);
        assert(2 * (n as nat) * pow2(s as nat) == 2 * p) by (nonlinear_arith)
            requires
                p == n as nat * pow2(s as nat),
        ;
        lemma_byte_to_channel_parts(n);
    }
    ((150 - s) * 0x80_0000 + (m - 0x80_0000)) as u32
}

pub open spec fn hex_char(v: nat) -> char {
    if v < 10 {
        ('0' as nat + v) as char
    } else {
        ('A' as nat + v - 10) as char
    }
}

/// Two upper-case hexadecimal digits of a byte.
pub open spec fn hex_pair(b: u8) -> Seq<char> {
    seq![hex_char(b as nat / 16), hex_char(b as nat % 16)]
}

/// `#RRGGBB`.
pub open spec fn hex_spec(d: DisplayColor) -> Seq<char> {
    seq!['#'] + hex_pair(d.r) + hex_pair(d.g) + hex_pair(d.b)
}

fn hex_digit(v: u8) -> (r: &'static str)
    requires
        v < 16,
    ensures
        r@ == seq![hex_char(v as nat)],
{
    let r = match v {
        0 => {
            proof {
                reveal_strlit("0");
            }
            "0"
        },
        1 => {
            proof {
                reveal_strlit("1");
            }
            "1"
        },
        2 => {
            proof {
                reveal_strlit("2");
            }
            "2"
        },
        3 => {
            proof {
                reveal_strlit("3");
            }
            "3"
        },
        4 => {
            proof {
                reveal_strlit("4");
            }
            "4"
        },
        5 => {
            proof {
                reveal_strlit("5");
            }
            "5"
        },
        6 => {
            proof {
                reveal_strlit("6");
            }
            "6"
        },
        7 => {
            proof {
                reveal_strlit("7");
            }
            "7"
        },
        8 => {
            proof {
                reveal_strlit("8");
            }
            "8"
        },
        9 => {
            proof {
                reveal_strlit("9");
            }
            "9"
        },
        10 => {
            proof {
                reveal_strlit("A");
            }
            "A"
        },
        11 => {
            proof {
                reveal_strlit("B");
            }
            "B"
        },
        12 => {
            proof {
                reveal_strlit("C");
            }
            "C"
        },
        13 => {
            proof {
                reveal_strlit("D");
            }
            "D"
        },
        14 => {
            proof {
                reveal_strlit("E");
            }
            "E"
        },
        _ => {
            proof {
                reveal_strlit("F");
            }
            "F"
        },
    };
    assert(r@ =~= seq![hex_char(v as nat)]);
    r
}

fn append_hex_pair(s: &mut String, b: u8)
    ensures
        final(s)@ == old(s)@ + hex_pair(b),
{
    s.append(hex_digit(b / 16));
    s.append(hex_digit(b % 16));
    assert(final(s)@ =~= old(s)@ + hex_pair(b));
}

impl DisplayColor {
    /// The colour as `#RRGGBB`, upper-case, for the clipboard.
    pub fn to_hex(&self) -> (r: String)
        ensures
            r@ == hex_spec(*self),
    {
        proof {
            reveal_strlit("#");
        }
        let mut s = String::from_str("#");
        append_hex_pair(&mut s, self.r);
        append_hex_pair(&mut s, self.g);
        append_hex_pair(&mut s, self.b);
        assert(s@ =~= hex_spec(*self));
        s
    }
}

/// The display form of a colour, or `None` where the colour model cannot be
/// shown (anything but RGB).
pub fn to_display(c: &ColorValue) -> (r: Option<DisplayColor>)
    ensures
        r == to_display_spec(*c),
{
    match c {
        ColorValue::Rgb(r, g, b) => Some(
            DisplayColor { r: channel_byte(*r), g: channel_byte(*g), b: channel_byte(*b) },
        ),
        _ => None,
    }
}

/// The stored colour for a display colour; always RGB.
pub fn from_display(d: DisplayColor) -> (r: ColorValue)
    ensures
        r == from_display_spec(d),
{
    ColorValue::Rgb(byte_channel(d.r), byte_channel(d.g), byte_channel(d.b))
}

proof fn lemma_unit_scale(n: nat, s: nat)
    requires
        1 <= n <= 254,
        24 <= s,
        n * pow2(s) < 255 * 0x100_0000,
    ensures
        s <= unit_scale(n, s) <= 31,
        255 * 0x80_0000 <= n * pow2(unit_scale(n, s)) < 255 * 0x100_0000,
    decreases 64 - s,
{
    lemma2_to64();
    assert(pow2(s) <= n * pow2(s)) by (nonlinear_arith)
        requires
            n >= 1,
    ;
    if s > 32 {
        lemma_pow2_strictly_increases(32, s);
    }
    if n * pow2(s) < 255 * 0x80_0000 {
        if s == 31 {
            assert(false);
        }
        lemma_pow2_unfold(s + 1);
        assert(n * pow2(s + 1) == 2 * (n * pow2(s))) by (nonlinear_arith)
            requires
                pow2(s + 1) == 2 * pow2(s),
        ;
        lemma_unit_scale(n, s + 1);
        assert(unit_scale(n, s) == unit_scale(n, s + 1));
    } else {
        assert(unit_scale(n, s) == s);
    }
}

/// For `1 <= n <= 254`, the bit pattern `byte_to_channel(n)` is a normal float
/// with significand `m` and scale `s` as `byte_to_channel` computes them.
proof fn lemma_byte_to_channel_parts(n: u8)
    requires
        1 <= n <= 254,
    ensures
        ({
            let s = unit_scale(n as nat, 24);
            let m = (2 * (n as nat) * pow2(s) + 255) / 510;
            &&& 24 <= s <= 31
            &&& 0x80_0000 <= m < 0x100_0000
            &&& 255 * 0x80_0000 <= n as nat * pow2(s)
            &&& byte_to_channel(n) < 0x8000_0000
            &&& significand(byte_to_channel(n) as u32) == m
            &&& scale(byte_to_channel(n) as u32) == s
        }),
{
    lemma2_to64();
    let s = unit_scale(n as nat, 24);
    assert(n as nat * pow2(24) < 255 * 0x100_0000) by (nonlinear_arith)
        requires
            n <= 254,
            pow2(24) == 0x100_0000,
    ;
    lemma_unit_scale(n as nat, 24);
    let p = n as nat * pow2(s);
    let m = (2 * (n as nat) * pow2(s) + 255) / 510;
    let k = n as nat * pow2((s - 24) as nat);
    lemma_pow2_adds((s - 24) as nat, 24);
    assert(p == k * 0x100_0000) by (nonlinear_arith)
        requires
            p == n as nat * pow2(s),
            pow2(s) == pow2((s - 24) as nat) * 0x100_0000,
            k == n as nat * pow2((s - 24) as nat),
    ;
    assert(k <= 254) by (nonlinear_arith)
        requires
            p == k * 0x100_0000,
            p < 255 * 0x100_0000,
    ;
    assert(2 * (n as nat) * pow2(s) == 2 * p) by (nonlinear_arith)
        requires
            p == n as nat * pow2(s),
    ;
    assert(0x80_0000 <= m < 0x100_0000) by (nonlinear_arith)
        requires
            m == (2 * p + 255) / 510,
            p == k * 0x100_0000,
            k <= 254,
            p >= 255 * 0x80_0000,
    ;
    let b = byte_to_channel(n);
    assert(b == ((150 - s) as nat) * 0x80_0000 + (m - 0x80_0000) as nat);
    let e = (150 - s) as nat;
    let f = (m - 0x80_0000) as nat;
    assert(b / 0x80_0000 == e && b % 0x80_0000 == f) by (nonlinear_arith)
        requires
            b == e * 0x80_0000 + f,
            f < 0x80_0000,
    ;
}

/// The value `significand(bits) / 2^scale(bits)` of a float in `[0, 1]` comes
/// back from its display byte within one step: `|v' - v| <= 1 / 255`, written
/// with both denominators cleared.
pub open spec fn within_one_step(bits: u32, back: u32) -> bool {
    let m = significand(bits);
    let d = pow2(scale(bits));
    let m2 = significand(back);
    let d2 = pow2(scale(back));
    255 * m2 * d <= m * d2 * 255 + d * d2 && 255 * m * d2 <= m2 * d * 255 + d * d2
}

/// Showing a channel in `[0, 1]` and reading it back from the display moves it
/// by at most one 8-bit step.
pub proof fn law_display_round_trip(bits: u32)
    requires
        bits <= ONE_BITS,
    ensures
        within_one_step(bits, byte_to_channel(channel_to_byte(bits) as u8) as u32),
{
    let n = channel_to_byte(bits);
    let back = byte_to_channel(n as u8) as u32;
    lemma2_to64();
    if bits == ONE_BITS {
        assert(back == bits);
        let m = significand(bits);
        let d = pow2(scale(bits));
        assert(within_one_step(bits, bits)) by (nonlinear_arith)
            requires
                m == significand(bits),
                d == pow2(scale(bits)),
        ;
        return;
    }
    let m = significand(bits);
    let s = scale(bits);
    let d = pow2(s);
    lemma_pow2_unfold(s + 1);
    lemma_pow2_pos(s);
    assert(exponent_field(bits) <= 126) by {
        assert((bits as nat) / 0x80_0000 < 127);
    }
    assert(n * (2 * d) <= 510 * m + d < (n + 1) * (2 * d)) by (nonlinear_arith)
        requires
            n == (510 * m + d) / pow2(s + 1),
            pow2(s + 1) == 2 * d,
            d > 0,
    ;
    if s > 24 {
        lemma_pow2_strictly_increases(24, s);
    }
    assert(m < d);
    assert(n <= 255) by (nonlinear_arith)
        requires
            n * (2 * d) <= 510 * m + d,
            m < d,
    ;
    if n == 0 {
        assert(510 * m + d < 2 * d) by (nonlinear_arith)
            requires
                510 * m + d < (n + 1) * (2 * d),
                n == 0,
        ;
        lemma_pow2_pos(scale(back));
        assert(significand(back) == 0);
        assert(within_one_step(bits, back)) by (nonlinear_arith)
            requires
                510 * m + d < 2 * d,
                significand(back) == 0,
                pow2(scale(back)) > 0,
                d == pow2(scale(bits)),
                m == significand(bits),
        ;
    } else if n == 255 {
        assert(significand(back) == 0x80_0000 && scale(back) == 23);
        assert(pow2(23) == 0x80_0000);
        assert(within_one_step(bits, back)) by (nonlinear_arith)
            requires
                255 * (2 * d) <= 510 * m + d,
                m < d,
                significand(back) == 0x80_0000,
                pow2(scale(back)) == 0x80_0000,
                d == pow2(scale(bits)),
                m == significand(bits),
        ;
    } else {
        lemma_byte_to_channel_parts(n as u8);
        let s2 = unit_scale(n, 24);
        let d2 = pow2(s2);
        let m2 = (2 * n * d2 + 255) / 510;
        if s2 > 24 {
            lemma_pow2_strictly_increases(24, s2);
        }
        assert(510 * m2 <= 2 * n * d2 + 255 < 510 * m2 + 510) by (nonlinear_arith)
            requires
                m2 == (2 * n * d2 + 255) / 510,
        ;
        assert(within_one_step(bits, back)) by (nonlinear_arith)
            requires
                n * (2 * d) <= 510 * m + d < (n + 1) * (2 * d),
                510 * m2 <= 2 * n * d2 + 255 < 510 * m2 + 510,
                d2 >= 0x100_0000,
                d > 0,
                significand(back) == m2,
                pow2(scale(back)) == d2,
                d == pow2(scale(bits)),
                m == significand(bits),
        ;
    }
}

} // verus!
