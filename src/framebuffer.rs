use vstd::prelude::*;

use crate::color::{lemma_unpack_packed, unpack, Color};

verus! {

/// Byte offset of pixel (`x`, `y`) in a framebuffer whose scanlines are
/// `pitch` bytes apart and whose pixels are four bytes wide.
pub open spec fn offset_of(pitch: int, x: int, y: int) -> int {
    y * pitch + x * 4
}

/// `mem` after a little-endian store of `v` at byte `off`.
pub open spec fn store32(mem: Seq<u8>, off: int, v: u32) -> Seq<u8> {
    mem.update(off, (v & 0xff) as u8).update(off + 1, ((v >> 8u32) & 0xff) as u8).update(
        off + 2,
        ((v >> 16u32) & 0xff) as u8,
    ).update(off + 3, ((v >> 24u32) & 0xff) as u8)
}

/// The little-endian 32-bit value held at byte `off` of `mem`.
pub open spec fn load32(mem: Seq<u8>, off: int) -> u32 {
    (mem[off] as u32) | ((mem[off + 1] as u32) << 8u32) | ((mem[off + 2] as u32) << 16u32) | ((
    mem[off + 3] as u32) << 24u32)
}

/// Computes the byte offset of pixel (`x`, `y`) for scanlines `pitch` bytes apart.
pub fn pixel_offset(x: usize, y: usize, pitch: usize) -> (r: usize)
    requires
        offset_of(pitch as int, x as int, y as int) <= usize::MAX,
    ensures
        r == offset_of(pitch as int, x as int, y as int),
{
    proof {
        assert(0 <= y * pitch) by (nonlinear_arith);
    }
    y * pitch + x * 4
}

/// A linear framebuffer of 32-bit pixels: `height` scanlines, each `pitch`
/// bytes long, of which the first `4 * width` bytes are visible pixels.
/// `mem` stands for the video memory, byte by byte.
pub struct Framebuffer {
    pub width: usize,
    pub height: usize,
    pub pitch: usize,
    pub mem: Vec<u8>,
}

impl Framebuffer {
    pub open spec fn wf(&self) -> bool {
        &&& self.width * 4 <= self.pitch
        &&& self.mem@.len() == self.height * self.pitch
        &&& self.height * self.pitch <= usize::MAX
    }

    pub open spec fn in_bounds(&self, x: int, y: int) -> bool {
        0 <= x < self.width && 0 <= y < self.height
    }

    /// The 32-bit value of pixel (`x`, `y`).
    pub open spec fn pixel(&self, x: int, y: int) -> u32 {
        load32(self.mem@, offset_of(self.pitch as int, x, y))
    }

    /// A framebuffer of the given geometry with every byte zero.
    pub fn new(width: usize, height: usize, pitch: usize) -> (fb: Framebuffer)
        requires
            width * 4 <= pitch,
            height * pitch <= usize::MAX,
        ensures
            fb.wf(),
            fb.width == width,
            fb.height == height,
            fb.pitch == pitch,
            forall|i: int| 0 <= i < fb.mem@.len() ==> fb.mem@[i] == 0,
    {
        let len: usize = height * pitch;
        let mut mem: Vec<u8> = Vec::new();
        let mut i: usize = 0;
        while i < len
            invariant
                i <= len,
                mem@.len() == i,
                forall|j: int| 0 <= j < i ==> mem@[j] == 0,
            decreases len - i,
        {
            mem.push(0);
            i = i + 1;
        }
        Framebuffer { width, height, pitch, mem }
    }

    /// Stores `value` at byte `offset`, little-endian: the one place where
    /// video memory is written.
    pub fn write32(&mut self, offset: usize, value: u32)
        requires
            offset + 4 <= old(self).mem@.len(),
        ensures
            final(self).mem@ == store32(old(self).mem@, offset as int, value),
            final(self).width == old(self).width,
            final(self).height == old(self).height,
            final(self).pitch == old(self).pitch,
    {
        let len = self.mem.len();
        assert(offset + 4 <= len);
        self.mem.set(offset, #[verifier::truncate] ((value & 0xff) as u8));
        self.mem.set(offset + 1, #[verifier::truncate] (((value >> 8u32) & 0xff) as u8));
        self.mem.set(offset + 2, #[verifier::truncate] (((value >> 16u32) & 0xff) as u8));
        self.mem.set(offset + 3, #[verifier::truncate] (((value >> 24u32) & 0xff) as u8));
    }

    /// Reads the little-endian 32-bit value at byte `offset`.
    pub fn read32(&self, offset: usize) -> (r: u32)
        requires
            offset + 4 <= self.mem@.len(),
        ensures
            r == load32(self.mem@, offset as int),
    {
        let len = self.mem.len();
        assert(offset + 4 <= len);
        (self.mem[offset] as u32) | ((self.mem[offset + 1] as u32) << 8u32) | ((self.mem[offset
            + 2] as u32) << 16u32) | ((self.mem[offset + 3] as u32) << 24u32)
    }

    /// Writes `color` at pixel (`x`, `y`), at byte offset `y * pitch + x * 4`.
    pub fn put_pixel(&mut self, x: usize, y: usize, color: Color)
        requires
            old(self).wf(),
            old(self).in_bounds(x as int, y as int),
        ensures
            final(self).wf(),
            final(self).width == old(self).width,
            final(self).height == old(self).height,
            final(self).pitch == old(self).pitch,
            final(self).mem@ == store32(
                old(self).mem@,
                offset_of(old(self).pitch as int, x as int, y as int),
                color.packed(),
            ),
            final(self).pixel(x as int, y as int) == color.packed(),
    {
        proof {
            lemma_pixel_in_memory(self.width as int, self.height as int, self.pitch as int, x as int, y as int);
        }
        let offset = pixel_offset(x, y, self.pitch);
        let value = color.raw_int();
        self.write32(offset, value);
        proof {
            lemma_store_load(old(self).mem@, offset as int, value);
        }
    }

    /// Reads pixel (`x`, `y`) back.
    pub fn read_pixel(&self, x: usize, y: usize) -> (r: u32)
        requires
            self.wf(),
            self.in_bounds(x as int, y as int),
        ensures
            r == self.pixel(x as int, y as int),
    {
        proof {
            lemma_pixel_in_memory(self.width as int, self.height as int, self.pitch as int, x as int, y as int);
        }
        self.read32(pixel_offset(x, y, self.pitch))
    }
}

/// The four bytes of an in-bounds pixel lie inside a framebuffer of
/// `height * pitch` bytes.
pub proof fn lemma_pixel_in_memory(width: int, height: int, pitch: int, x: int, y: int)
    requires
        width * 4 <= pitch,
        0 <= x < width,
        0 <= y < height,
    ensures
        0 <= offset_of(pitch, x, y),
        offset_of(pitch, x, y) + 4 <= height * pitch,
{
    assert(0 <= y * pitch) by (nonlinear_arith)
        requires
            0 <= y,
            0 <= x < width,
            width * 4 <= pitch,
    ;
    assert(y * pitch + pitch <= height * pitch) by (nonlinear_arith)
        requires
            y + 1 <= height,
            0 <= x < width,
            width * 4 <= pitch,
    ;
}

/// A 32-bit store followed by a load at the same offset gives the stored value.
pub proof fn lemma_store_load(mem: Seq<u8>, off: int, v: u32)
    requires
        0 <= off,
        off + 4 <= mem.len(),
    ensures
        load32(store32(mem, off, v), off) == v,
{
    let m = store32(mem, off, v);
    let b0 = m[off];
    let b1 = m[off + 1];
    let b2 = m[off + 2];
    let b3 = m[off + 3];
    assert(b0 == (v & 0xff) as u8 && b1 == ((v >> 8u32) & 0xff) as u8 && b2 == ((v >> 16u32)
        & 0xff) as u8 && b3 == ((v >> 24u32) & 0xff) as u8);
    assert((b0 as u32) | ((b1 as u32) << 8u32) | ((b2 as u32) << 16u32) | ((b3 as u32) << 24u32)
        == v) by (bit_vector)
        requires
            b0 == (v & 0xff) as u8,
            b1 == ((v >> 8u32) & 0xff) as u8,
            b2 == ((v >> 16u32) & 0xff) as u8,
            b3 == ((v >> 24u32) & 0xff) as u8,
    ;
}

/// Writing a color at an in-bounds pixel and reading that pixel back gives
/// the written 32-bit value, which unpacks to the same color.
pub proof fn lemma_pixel_round_trip(fb: Framebuffer, x: int, y: int, color: Color)
    requires
        fb.wf(),
        fb.in_bounds(x, y),
    ensures
        load32(store32(fb.mem@, offset_of(fb.pitch as int, x, y), color.packed()), offset_of(fb.pitch as int, x, y)) == color.packed(),
        unpack(load32(store32(fb.mem@, offset_of(fb.pitch as int, x, y), color.packed()), offset_of(fb.pitch as int, x, y))) == color,
{
    lemma_pixel_in_memory(fb.width as int, fb.height as int, fb.pitch as int, x, y);
    lemma_store_load(fb.mem@, offset_of(fb.pitch as int, x, y), color.packed());
    lemma_unpack_packed(color);
}

} // verus!
