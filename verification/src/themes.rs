//! The theme store: a read-only sequence of fixed-width palette records.
//!
//! A record is 20 bytes: five fields of four bytes each. A field is a big-endian
//! 32-bit number whose low three bytes are red, green and blue; its top byte is
//! not used.

use crate::color::{pack, Color, Rgba};
use byteorder::{BigEndian, ByteOrder};
use rand_pcg::Pcg64;
use vstd::prelude::*;

verus! {

/// The width of one record in bytes.
pub const THEME_SIZE: usize = 20;

/// The number of colours in one record.
pub const THEME_COLORS: usize = 5;

/// An index that names no record of the store.
#[derive(Clone, Copy, Debug, PartialEq, Eq, Structural)]
pub struct BoundsError {
    /// The index that was asked for.
    pub index: usize,
    /// The number of records in the store.
    pub len: usize,
}

/// The number of whole records in `bytes`.
pub open spec fn record_count(bytes: Seq<u8>) -> nat {
    bytes.len() / 20
}

/// Colour `k` of record `idx`: opaque, with the three bytes after the field's first
/// as red, green and blue.
pub open spec fn entry(bytes: Seq<u8>, idx: int, k: int) -> Rgba {
    let at = idx * 20 + k * 4;
    Rgba { a: 0xff, r: bytes[at + 1], g: bytes[at + 2], b: bytes[at + 3] }
}

/// `colors` is the palette that record `idx` of `bytes` holds.
pub open spec fn is_palette(colors: Seq<Color>, bytes: Seq<u8>, idx: int) -> bool {
    &&& colors.len() == 5
    &&& forall|k: int| 0 <= k < 5 ==> (#[trigger] colors[k])@ == entry(bytes, idx, k)
}

/// The number that the first four bytes of `b` form, most significant byte first.
pub open spec fn be_u32(b: Seq<u8>) -> u32 {
    pack(b[0], b[1], b[2], b[3])
}

/// Calls `BigEndian::read_u32` of `byteorder`, which takes the first four bytes of
/// `buf` as a big-endian number and panics on a shorter slice.
#[verifier::external_body]
fn read_u32_be(buf: &[u8]) -> (v: u32)
    requires
        buf@.len() >= 4,
    ensures
        v == be_u32(buf@),
{
    BigEndian::read_u32(buf)
}

/// A store of palettes, held as the bytes of its records.
pub struct Themes {
    mem: Vec<u8>,
}

impl View for Themes {
    type V = Seq<u8>;

    closed spec fn view(&self) -> Seq<u8> {
        self.mem@
    }
}

impl Themes {
    /// A store over the bytes of a theme file.
    pub fn from_bytes(mem: Vec<u8>) -> (themes: Self)
        ensures
            themes@ == mem@,
    {
        Themes { mem }
    }

    /// The palette of record `idx`, or an error when the store has no such record.
    pub fn get(&self, idx: usize) -> (r: Result<Vec<Color>, BoundsError>)
        ensures
            match r {
                Ok(colors) => idx < record_count(self@) && is_palette(colors@, self@, idx as int),
                Err(e) => idx >= record_count(self@) && e == (BoundsError {
                    index: idx,
                    len: record_count(self@) as usize,
                }),
            },
    {
        let len = self.len();
        if idx < len {
            Ok(self.palette(idx))
        } else {
            Err(BoundsError { index: idx, len })
        }
    }

    /// Draws a record uniformly and gives its index and palette.
    pub fn pick(&self, rng: &mut Pcg64) -> (r: (usize, Vec<Color>))
        requires
            record_count(self@) > 0,
        ensures
            r.0 < record_count(self@),
            is_palette(r.1@, self@, r.0 as int),
    {
        let ix = crate::rng::sample_below(rng, self.len());
        (ix, self.palette(ix))
    }

    /// Decodes the five fields of a record that the store holds.
    fn palette(&self, idx: usize) -> (colors: Vec<Color>)
        requires
            idx < record_count(self@),
        ensures
            is_palette(colors@, self@, idx as int),
    {
        let total = self.mem.len();
        let off = idx * THEME_SIZE;
        assert(off + 20 <= total);
        let mut colors: Vec<Color> = Vec::with_capacity(THEME_COLORS);
        for i in 0..THEME_COLORS
            invariant
                off == idx * 20,
                off + 20 <= total == self.mem@.len(),
                colors@.len() == i,
                forall|k: int|
                    0 <= k < i ==> (#[trigger] colors@[k])@ == entry(self@, idx as int, k),
        {
            let b = off + i * 4;
            let word = read_u32_be(&self.mem[b..b + 4]);
            proof {
                let field = self.mem@.subrange(b as int, b + 4);
                Rgba::lemma_top_byte_ignored(field[0], field[1], field[2], field[3]);
            }
            colors.push(Color::from_rgb_u32(word));
        }
        colors
    }

    /// The number of records.
    pub fn len(&self) -> (n: usize)
        ensures
            n == record_count(self@),
    {
        self.mem.len() / THEME_SIZE
    }

    /// Whether the store holds no record.
    pub fn is_empty(&self) -> (b: bool)
        ensures
            b == (record_count(self@) == 0),
    {
        self.len() == 0
    }
}

} // verus!
