//! An 8-bit-per-channel RGB color with clamped construction, saturating
//! addition, clamped rational scaling and 24-bit hex conversion.

use vstd::prelude::*;
use vstd::string::StringExecFns;

verus! {

/// Three independent 8-bit channels; every channel always lies in [0, 255].
/// Constructors and arithmetic re-clamp, so no other representation exists.
#[derive(Debug, Copy, Clone, PartialEq, Eq, Structural)]
pub struct Color {
    pub r: u8,
    pub g: u8,
    pub b: u8,
}

/// Clamps an arbitrary integer into the 0..=255 channel range.
pub open spec fn clamp_channel(v: int) -> u8 {
    if v < 0 {
        0u8
    } else if v > 255 {
        255u8
    } else {
        v as u8
    }
}

/// Per-channel saturating addition: caps at 255, never wraps.
pub open spec fn sat_add_channel(a: u8, b: u8) -> u8 {
    if a + b > 255 {
        255u8
    } else {
        (a + b) as u8
    }
}

/// Scales one channel by the ratio `num / den`, rounding to the nearest
/// integer (halves up) and clamping the result to 255.
pub open spec fn scale_channel(c: u8, num: u32, den: u32) -> u8
    recommends
        den > 0,
{
    clamp_channel((c * num + den / 2) / (den as int))
}

/// The color encoded by the low 24 bits of `h`: red in bits 16-23,
/// green in bits 8-15, blue in bits 0-7.
pub open spec fn color_of_hex(h: u32) -> Color {
    Color { r: ((h >> 16) & 0xFF) as u8, g: ((h >> 8) & 0xFF) as u8, b: (h & 0xFF) as u8 }
}

/// The 24-bit packing of a color: red shifted to bits 16-23, green to
/// bits 8-15, blue in bits 0-7.
pub open spec fn hex_of_color(c: Color) -> u32 {
    ((c.r as u32) << 16) | ((c.g as u32) << 8) | (c.b as u32)
}

fn clamp_to_channel(v: i32) -> (r: u8)
    ensures
        r == clamp_channel(v as int),
{
    if v < 0 {
        0
    } else if v > 255 {
        255
    } else {
        v as u8
    }
}

impl Color {
    /// Builds a color, clamping each input independently to [0, 255].
    pub fn new(r: i32, g: i32, b: i32) -> (c: Color)
        ensures
            c.r == clamp_channel(r as int),
            c.g == clamp_channel(g as int),
            c.b == clamp_channel(b as int),
    {
        Color { r: clamp_to_channel(r), g: clamp_to_channel(g), b: clamp_to_channel(b) }
    }

    /// Unpacks the low 24 bits of `hex` into the three channels.
    pub fn from_hex(hex: u32) -> (c: Color)
        ensures
            c == color_of_hex(hex),
    {
        let r = ((hex >> 16) & 0xFF) as u8;
        let g = ((hex >> 8) & 0xFF) as u8;
        let b = (hex & 0xFF) as u8;
        Color { r, g, b }
    }

    /// Packs the three channels into a 24-bit value; the inverse of
    /// `from_hex` on 24-bit inputs.
    pub fn to_hex(&self) -> (h: u32)
        ensures
            h == hex_of_color(*self),
            h < 0x1000000,
    {
        let h = ((self.r as u32) << 16) | ((self.g as u32) << 8) | (self.b as u32);
        proof {
            let (r, g, b) = (self.r, self.g, self.b);
            assert((((r as u32) << 16) | ((g as u32) << 8) | (b as u32)) < 0x1000000)
                by (bit_vector);
        }
        h
    }

    /// Overwrites the channels, clamping each input to [0, 255].
    pub fn set_color(&mut self, r: i32, g: i32, b: i32)
        ensures
            final(self).r == clamp_channel(r as int),
            final(self).g == clamp_channel(g as int),
            final(self).b == clamp_channel(b as int),
    {
        self.r = clamp_to_channel(r);
        self.g = clamp_to_channel(g);
        self.b = clamp_to_channel(b);
    }

    /// Per-channel saturating addition.
    pub fn add(self, other: Color) -> (c: Color)
        ensures
            c.r == sat_add_channel(self.r, other.r),
            c.g == sat_add_channel(self.g, other.g),
            c.b == sat_add_channel(self.b, other.b),
    {
        Color {
            r: sat_add_exec(self.r, other.r),
            g: sat_add_exec(self.g, other.g),
            b: sat_add_exec(self.b, other.b),
        }
    }

    /// Scales every channel by `num / den`, rounding to nearest and
    /// clamping at 255.
    pub fn scale(self, num: u32, den: u32) -> (c: Color)
        requires
            den > 0,
        ensures
            c.r == scale_channel(self.r, num, den),
            c.g == scale_channel(self.g, num, den),
            c.b == scale_channel(self.b, num, den),
    {
        Color {
            r: scale_exec(self.r, num, den),
            g: scale_exec(self.g, num, den),
            b: scale_exec(self.b, num, den),
        }
    }
}

fn sat_add_exec(a: u8, b: u8) -> (r: u8)
    ensures
        r == sat_add_channel(a, b),
{
    if a as u16 + b as u16 > 255 {
        255
    } else {
        a + b
    }
}

fn scale_exec(c: u8, num: u32, den: u32) -> (r: u8)
    requires
        den > 0,
    ensures
        r == scale_channel(c, num, den),
{
    proof {
        assert(c as u64 * (num as u64) <= 255 * 0xFFFF_FFFFu64) by (nonlinear_arith)
            requires
                c <= 255,
                num <= 0xFFFF_FFFFu64,
        ;
    }
    let q: u64 = (c as u64 * num as u64 + den as u64 / 2) / (den as u64);
    if q > 255 {
        255
    } else {
        q as u8
    }
}

/// The character for one decimal digit.
pub open spec fn digit_char(d: int) -> char {
    if d == 0 {
        '0'
    } else if d == 1 {
        '1'
    } else if d == 2 {
        '2'
    } else if d == 3 {
        '3'
    } else if d == 4 {
        '4'
    } else if d == 5 {
        '5'
    } else if d == 6 {
        '6'
    } else if d == 7 {
        '7'
    } else if d == 8 {
        '8'
    } else {
        '9'
    }
}

/// The decimal digits of a channel value, without leading zeros.
pub open spec fn decimal_digits(v: int) -> Seq<char>
    recommends
        0 <= v <= 255,
{
    if v < 10 {
        seq![digit_char(v)]
    } else if v < 100 {
        seq![digit_char(v / 10), digit_char(v % 10)]
    } else {
        seq![digit_char(v / 100), digit_char((v / 10) % 10), digit_char(v % 10)]
    }
}

/// The fixed textual form of a color, with decimal channel values.
pub open spec fn display_chars(c: Color) -> Seq<char> {
    "Color(r: "@ + decimal_digits(c.r as int) + ", g: "@ + decimal_digits(c.g as int) + ", b: "@
        + decimal_digits(c.b as int) + ")"@
}

fn digit_str(d: u8) -> (s: &'static str)
    requires
        d < 10,
    ensures
        s@ == seq![digit_char(d as int)],
{
    proof {
        reveal_strlit("0");
        reveal_strlit("1");
        reveal_strlit("2");
        reveal_strlit("3");
        reveal_strlit("4");
        reveal_strlit("5");
        reveal_strlit("6");
        reveal_strlit("7");
        reveal_strlit("8");
        reveal_strlit("9");
    }
    let s = match d {
        0 => "0",
        1 => "1",
        2 => "2",
        3 => "3",
        4 => "4",
        5 => "5",
        6 => "6",
        7 => "7",
        8 => "8",
        _ => "9",
    };
    proof {
        assert(s@ =~= seq![digit_char(d as int)]);
    }
    s
}

fn decimal_string(v: u8) -> (s: String)
    ensures
        s@ == decimal_digits(v as int),
{
    let mut s = String::new();
    if v < 10 {
        s.append(digit_str(v));
    } else if v < 100 {
        s.append(digit_str(v / 10));
        s.append(digit_str(v % 10));
    } else {
        s.append(digit_str(v / 100));
        s.append(digit_str((v / 10) % 10));
        s.append(digit_str(v % 10));
    }
    proof {
        assert(s@ =~= decimal_digits(v as int));
    }
    s
}

impl Color {
    /// The fixed textual form "Color(r: R, g: G, b: B)" with decimal
    /// channel values.
    pub fn display_string(&self) -> (s: String)
        ensures
            s@ == display_chars(*self),
    {
        let mut s = String::from_str("Color(r: ");
        let r = decimal_string(self.r);
        s.append(r.as_str());
        s.append(", g: ");
        let g = decimal_string(self.g);
        s.append(g.as_str());
        s.append(", b: ");
        let b = decimal_string(self.b);
        s.append(b.as_str());
        s.append(")");
        proof {
            reveal_strlit("Color(r: ");
            reveal_strlit(", g: ");
            reveal_strlit(", b: ");
            reveal_strlit(")");
            assert(s@ =~= display_chars(*self));
        }
        s
    }
}

/// Law: packing the color decoded from any 24-bit value gives that value
/// back; `to_hex` inverts `from_hex` below 0x1000000.
pub proof fn lemma_hex_round_trip(h: u32)
    requires
        h < 0x1000000,
    ensures
        hex_of_color(color_of_hex(h)) == h,
{
    assert((((((h >> 16) & 0xFF) as u8) as u32) << 16) | (((((h >> 8) & 0xFF) as u8) as u32) << 8)
        | (((h & 0xFF) as u8) as u32) == h) by (bit_vector)
        requires
            h < 0x1000000,
    ;
}

/// Law: decoding the 24-bit packing of any color gives the same channels
/// back; `from_hex` inverts `to_hex`.
pub proof fn lemma_color_round_trip(c: Color)
    ensures
        color_of_hex(hex_of_color(c)) == c,
{
    let (r, g, b) = (c.r, c.g, c.b);
    let h = ((r as u32) << 16) | ((g as u32) << 8) | (b as u32);
    assert(((h >> 16) & 0xFF) as u8 == r && ((h >> 8) & 0xFF) as u8 == g && (h & 0xFF) as u8 == b)
        by (bit_vector)
        requires
            h == ((r as u32) << 16) | ((g as u32) << 8) | (b as u32),
    ;
}

} // verus!
