//! Colours with eight bits per channel.

use crate::hex;
use vstd::prelude::*;
use vstd::string::*;

verus! {

/// The four channels of a colour as plain bytes: the mathematical model of [`Color`].
pub struct Rgba {
    pub a: u8,
    pub r: u8,
    pub g: u8,
    pub b: u8,
}

/// How a colour is handed to a renderer.
#[derive(Clone, Copy, Debug)]
pub enum Paint {
    /// A fully opaque source: the alpha channel is 255 and is not passed on.
    Opaque { r: u8, g: u8, b: u8 },
    /// A source that is blended with what lies below it.
    Blended { r: u8, g: u8, b: u8, a: u8 },
}

/// The byte of `c` that lies `shift` bits above its lowest bit.
pub open spec fn byte_at(c: u32, shift: u32) -> u8 {
    ((c >> shift) & 0xff) as u8
}

/// The packed form `0xAARRGGBB` of four channels.
pub open spec fn pack(a: u8, r: u8, g: u8, b: u8) -> u32 {
    (a as u32) << 24 | (r as u32) << 16 | (g as u32) << 8 | (b as u32)
}

fn byte_of(c: u32, shift: u32) -> (v: u8)
    requires
        shift < 32,
    ensures
        v == byte_at(c, shift),
{
    assert((c >> shift) & 0xff < 0x100) by (bit_vector);
    ((c >> shift) & 0xff) as u8
}

impl Rgba {
    /// The paint source that stands for these channels: opaque exactly when alpha is 255.
    pub open spec fn paint(self) -> Paint {
        if self.a == 0xff {
            Paint::Opaque { r: self.r, g: self.g, b: self.b }
        } else {
            Paint::Blended { r: self.r, g: self.g, b: self.b, a: self.a }
        }
    }

    /// The channels held by a packed `0xAARRGGBB` value.
    pub open spec fn from_rgba_u32(c: u32) -> Rgba {
        Rgba { a: byte_at(c, 24), r: byte_at(c, 16), g: byte_at(c, 8), b: byte_at(c, 0) }
    }

    /// The channels held by a packed `0xRRGGBB` value; the top byte is ignored and the
    /// colour is opaque.
    pub open spec fn from_rgb_u32(c: u32) -> Rgba {
        Rgba { a: 0xff, r: byte_at(c, 16), g: byte_at(c, 8), b: byte_at(c, 0) }
    }

    /// The packed form `0x00RRGGBB`, which leaves alpha out.
    pub open spec fn rgb_u32(self) -> u32 {
        pack(0, self.r, self.g, self.b)
    }

    /// The text `#rrggbb`: two lower-case hexadecimal digits for each of red, green
    /// and blue.
    pub open spec fn text(self) -> Seq<char> {
        seq!['#'] + hex::padded(self.r as nat, 2) + hex::padded(self.g as nat, 2) + hex::padded(
            self.b as nat,
            2,
        )
    }

    /// Decoding a packed value as `0xRRGGBB` gives back the three low bytes that were
    /// packed, whatever the top byte was.
    pub proof fn lemma_top_byte_ignored(top: u8, r: u8, g: u8, b: u8)
        ensures
            Rgba::from_rgb_u32(pack(top, r, g, b)) == (Rgba { a: 0xff, r, g, b }),
    {
        let c = pack(top, r, g, b);
        assert(byte_at(c, 16) == r && byte_at(c, 8) == g && byte_at(c, 0) == b) by (bit_vector)
            requires
                c == (top as u32) << 24 | (r as u32) << 16 | (g as u32) << 8 | (b as u32),
        ;
    }
}

/// An RGBA colour. Every transform gives a new value.
#[derive(Clone, Copy, Debug)]
pub struct Color {
    a: u8,
    r: u8,
    g: u8,
    b: u8,
}

impl View for Color {
    type V = Rgba;

    closed spec fn view(&self) -> Rgba {
        Rgba { a: self.a, r: self.r, g: self.g, b: self.b }
    }
}

impl Color {
    /// An opaque colour.
    pub fn from_rgb(r: u8, g: u8, b: u8) -> (c: Self)
        ensures
            c@ == (Rgba { a: 0xff, r, g, b }),
    {
        Self { r, g, b, a: 0xff }
    }

    /// A colour with the given stored alpha.
    pub fn from_rgba(r: u8, g: u8, b: u8, a: u8) -> (c: Self)
        ensures
            c@ == (Rgba { a, r, g, b }),
    {
        Self { r, g, b, a }
    }

    /// Decodes a packed `0xAARRGGBB` value.
    pub fn from_rgba_u32(c: u32) -> (color: Self)
        ensures
            color@ == Rgba::from_rgba_u32(c),
    {
        Self::from_rgba(byte_of(c, 16), byte_of(c, 8), byte_of(c, 0), byte_of(c, 24))
    }

    /// Decodes a packed `0xRRGGBB` value; the top byte is ignored.
    pub fn from_rgb_u32(c: u32) -> (color: Self)
        ensures
            color@ == Rgba::from_rgb_u32(c),
    {
        Self::from_rgb(byte_of(c, 16), byte_of(c, 8), byte_of(c, 0))
    }

    /// A copy with the stored alpha replaced.
    pub fn with_alpha(&self, a: u8) -> (c: Self)
        ensures
            c@ == (Rgba { a, r: self@.r, g: self@.g, b: self@.b }),
    {
        Self::from_rgba(self.r, self.g, self.b, a)
    }

    /// The paint source to hand to a renderer: opaque exactly when alpha is 255.
    pub fn paint(&self) -> (p: Paint)
        ensures
            p == self@.paint(),
    {
        if self.a == 0xff {
            Paint::Opaque { r: self.r, g: self.g, b: self.b }
        } else {
            Paint::Blended { r: self.r, g: self.g, b: self.b, a: self.a }
        }
    }

    /// The red channel.
    pub fn r(&self) -> (v: u8)
        ensures
            v == self@.r,
    {
        self.r
    }

    /// The green channel.
    pub fn g(&self) -> (v: u8)
        ensures
            v == self@.g,
    {
        self.g
    }

    /// The blue channel.
    pub fn b(&self) -> (v: u8)
        ensures
            v == self@.b,
    {
        self.b
    }

    /// The stored alpha.
    pub fn a(&self) -> (v: u8)
        ensures
            v == self@.a,
    {
        self.a
    }

    /// The packed form `0x00RRGGBB`, which leaves alpha out.
    pub fn to_rgb_u32(&self) -> (c: u32)
        ensures
            c == self@.rgb_u32(),
    {
        let r = self.r as u32;
        let g = self.g as u32;
        let b = self.b as u32;
        assert((0u8 as u32) << 24 | r << 16 | g << 8 | b == r << 16 | g << 8 | b) by (bit_vector);
        assert(r << 16 | g << 8 | b <= 0xff_ffff) by (bit_vector)
            requires
                r < 256,
                g < 256,
                b < 256,
        ;
        r << 16 | g << 8 | b
    }

    /// Opaque white.
    pub fn white() -> (c: Self)
        ensures
            c@ == (Rgba { a: 0xff, r: 0xff, g: 0xff, b: 0xff }),
    {
        Self::from_rgb(0xff, 0xff, 0xff)
    }

    /// Opaque black.
    pub fn black() -> (c: Self)
        ensures
            c@ == (Rgba { a: 0xff, r: 0, g: 0, b: 0 }),
    {
        Self::from_rgb(0x00, 0x00, 0x00)
    }

    /// The text `#rrggbb` in lower case; alpha is left out.
    pub fn to_string(&self) -> (s: String)
        ensures
            s@ == self@.text(),
    {
        proof {
            reveal_strlit("#");
        }
        let mut s = "#".to_owned();
        hex::push_padded(&mut s, self.r as u64, 2);
        hex::push_padded(&mut s, self.g as u64, 2);
        hex::push_padded(&mut s, self.b as u64, 2);
        s
    }
}

/// Packing the red, green and blue of a colour and decoding the packed value gives
/// those three channels back; alpha takes no part and comes out opaque.
pub proof fn lemma_rgb_round_trip(c: Rgba)
    ensures
        Rgba::from_rgb_u32(c.rgb_u32()) == (Rgba { a: 0xff, r: c.r, g: c.g, b: c.b }),
{
    Rgba::lemma_top_byte_ignored(0, c.r, c.g, c.b);
}

} // verus!
