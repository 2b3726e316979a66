use vstd::prelude::*;

verus! {

/// A pixel color with one byte per channel, laid out in memory as red, green,
/// blue, alpha.
#[derive(Clone, Copy, Debug, PartialEq, Eq, Structural)]
pub struct Color {
    pub red: u8,
    pub green: u8,
    pub blue: u8,
    pub alpha: u8,
}

/// The color whose 32-bit little-endian encoding is `v`.
pub open spec fn unpack(v: u32) -> Color {
    Color {
        red: (v & 0xff) as u8,
        green: ((v >> 8u32) & 0xff) as u8,
        blue: ((v >> 16u32) & 0xff) as u8,
        alpha: ((v >> 24u32) & 0xff) as u8,
    }
}

impl Color {
    /// The 32-bit value whose little-endian bytes are red, green, blue, alpha.
    pub open spec fn packed(self) -> u32 {
        (self.red as u32) | ((self.green as u32) << 8u32) | ((self.blue as u32) << 16u32) | ((
        self.alpha as u32) << 24u32)
    }

    /// The opaque gray whose three color channels all equal `v`.
    pub open spec fn gray_spec(v: u8) -> Color {
        Color { red: v, green: v, blue: v, alpha: 255 }
    }

    pub open spec fn is_opaque_gray(self) -> bool {
        self.red == self.green && self.green == self.blue && self.alpha == 255
    }

    /// Builds the opaque gray color of intensity `v`.
    pub fn gray(v: u8) -> (c: Color)
        ensures
            c == Color::gray_spec(v),
            c.is_opaque_gray(),
    {
        Color { red: v, green: v, blue: v, alpha: 255 }
    }

    /// Packs the color into one 32-bit value with the framebuffer's byte order.
    pub fn raw_int(self) -> (r: u32)
        ensures
            r == self.packed(),
            unpack(r) == self,
    {
        proof {
            lemma_unpack_packed(self);
        }
        (self.red as u32) | ((self.green as u32) << 8u32) | ((self.blue as u32) << 16u32) | ((
        self.alpha as u32) << 24u32)
    }
}

/// Packing a color and unpacking the result gives the color back.
pub proof fn lemma_unpack_packed(c: Color)
    ensures
        unpack(c.packed()) == c,
{
    let r = c.red as u32;
    let g = c.green as u32;
    let b = c.blue as u32;
    let a = c.alpha as u32;
    assert(r < 256 && g < 256 && b < 256 && a < 256);
    let v = c.packed();
    assert(v == r | (g << 8u32) | (b << 16u32) | (a << 24u32));
    assert((v & 0xff) == r && ((v >> 8u32) & 0xff) == g && ((v >> 16u32) & 0xff) == b && ((v
        >> 24u32) & 0xff) == a) by (bit_vector)
        requires
            r < 256 && g < 256 && b < 256 && a < 256,
            v == r | (g << 8u32) | (b << 16u32) | (a << 24u32),
    ;
}

} // verus!
