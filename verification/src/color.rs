//! CSS colors as plain channel values.
//!
//! A color is stored as its four 8-bit channels; the CSS color grammar
//! itself is handled by the `csscolorparser` crate, whose result is named
//! as a function of the input text.

use vstd::prelude::*;

use crate::strutil::chars_to_string;

verus! {

/// An RGBA color with 8-bit channels.
#[derive(Debug, Clone, Copy, PartialEq, Eq, Structural)]
pub struct Color {
    /// Red channel.
    pub r: u8,
    /// Green channel.
    pub g: u8,
    /// Blue channel.
    pub b: u8,
    /// Alpha channel; 255 is fully opaque.
    pub a: u8,
}

/// The channels that parsing the text as a CSS color yields
/// (`csscolorparser::parse` followed by `Color::to_rgba8`), `None` when the
/// text is not a CSS color.
pub uninterp spec fn css_color_of(s: Seq<char>) -> Option<(u8, u8, u8, u8)>;

/// Relies on `csscolorparser::parse` and `Color::to_rgba8`: the channels
/// depend on the text alone.
#[verifier::external_body]
pub fn parse_css_color(s: &str) -> (r: Option<Color>)
    ensures
        r matches Some(c) ==> css_color_of(s@) == Some((c.r, c.g, c.b, c.a)),
        r is Some <==> css_color_of(s@) is Some,
{
    match csscolorparser::parse(s) {
        Ok(c) => {
            let [r, g, b, a] = c.to_rgba8();
            Some(Color { r, g, b, a })
        },
        Err(_) => None,
    }
}

/// Fully opaque white, the fallback theme color.
pub fn white() -> (c: Color)
    ensures
        c == (Color { r: 255, g: 255, b: 255, a: 255 }),
{
    Color { r: 255, g: 255, b: 255, a: 255 }
}

/// The lower-case hex digit for a value below 16.
pub open spec fn spec_hex_digit(n: u8) -> char {
    if n < 10 {
        (('0' as u8) + n) as char
    } else {
        (('a' as u8) + (n - 10)) as char
    }
}

/// The two lower-case hex digits of a byte, high nibble first.
pub open spec fn spec_hex_byte(b: u8) -> Seq<char> {
    seq![spec_hex_digit(b / 16), spec_hex_digit(b % 16)]
}

/// The CSS hex form of a color: `#rrggbb`, with `aa` appended only when the
/// color is not fully opaque.
pub open spec fn spec_color_hex(c: Color) -> Seq<char> {
    let rgb = seq!['#'] + spec_hex_byte(c.r) + spec_hex_byte(c.g) + spec_hex_byte(c.b);
    if c.a == 255 {
        rgb
    } else {
        rgb + spec_hex_byte(c.a)
    }
}

/// Render one hex digit.
pub fn hex_digit(n: u8) -> (r: char)
    requires
        n < 16,
    ensures
        r == spec_hex_digit(n),
{
    if n < 10 {
        (('0' as u8) + n) as char
    } else {
        (('a' as u8) + (n - 10)) as char
    }
}

/// Push the two hex digits of a byte.
pub fn push_hex_byte(dst: &mut Vec<char>, b: u8)
    ensures
        final (dst)@ == old(dst)@ + spec_hex_byte(b),
{
    dst.push(hex_digit(b / 16));
    dst.push(hex_digit(b % 16));
    proof {
        assert(old(dst)@.push(spec_hex_digit(b / 16)).push(spec_hex_digit(b % 16)) =~= old(
            dst,
        )@ + spec_hex_byte(b));
    }
}

impl Color {
    /// The CSS hex serialization of the color.
    pub fn to_hex_string(&self) -> (r: String)
        ensures
            r@ == spec_color_hex(*self),
    {
        let mut v: Vec<char> = Vec::new();
        v.push('#');
        push_hex_byte(&mut v, self.r);
        push_hex_byte(&mut v, self.g);
        push_hex_byte(&mut v, self.b);
        if self.a != 255 {
            push_hex_byte(&mut v, self.a);
        }
        proof {
            assert(v@ =~= spec_color_hex(*self));
        }
        chars_to_string(&v)
    }
}

} // verus!
