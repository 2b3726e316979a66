use vstd::prelude::*;

use vstd::arithmetic::div_mod::lemma_fundamental_div_mod_converse;

use crate::color::Color;
use crate::framebuffer::{offset_of, store32, Framebuffer};
use crate::font::{
    glyph_raster, is_cell_raster, lookup_raster, raster_height, raster_width, rows_view,
    GLYPH_HEIGHT, GLYPH_WIDTH,
};

verus! {

/// One call of the pixel writer: `color` at pixel (`x`, `y`).
#[derive(Clone, Copy, Debug, PartialEq, Eq, Structural)]
pub struct PixelWrite {
    pub x: usize,
    pub y: usize,
    pub color: Color,
}

/// The `k`-th write, in row-major order over the raster, when the glyph
/// `raster` is painted at cell (`col`, `row`).
pub open spec fn glyph_write(col: int, row: int, raster: Seq<Seq<u8>>, k: int) -> PixelWrite {
    let ry = k / (GLYPH_WIDTH as int);
    let cx = k % (GLYPH_WIDTH as int);
    PixelWrite {
        x: (col * GLYPH_WIDTH + cx) as usize,
        y: (row * GLYPH_HEIGHT + ry) as usize,
        color: Color::gray_spec(raster[ry][cx]),
    }
}

/// Every write, in order, that painting `raster` at cell (`col`, `row`) makes.
pub open spec fn glyph_writes(col: int, row: int, raster: Seq<Seq<u8>>) -> Seq<PixelWrite> {
    Seq::new((GLYPH_WIDTH * GLYPH_HEIGHT) as nat, |k: int| glyph_write(col, row, raster, k))
}

/// The pixel coordinates of a cell fit in a `usize`.
pub open spec fn cell_fits(col: int, row: int) -> bool {
    &&& 0 <= col
    &&& 0 <= row
    &&& col * GLYPH_WIDTH + GLYPH_WIDTH <= usize::MAX
    &&& row * GLYPH_HEIGHT + GLYPH_HEIGHT <= usize::MAX
}

/// Sample `k` of a glyph lies at raster row `k / GLYPH_WIDTH`, column
/// `k % GLYPH_WIDTH`, inside the raster.
pub proof fn lemma_sample_position(k: int)
    requires
        0 <= k < GLYPH_WIDTH * GLYPH_HEIGHT,
    ensures
        0 <= k / (GLYPH_WIDTH as int) < GLYPH_HEIGHT,
        0 <= k % (GLYPH_WIDTH as int) < GLYPH_WIDTH,
        k == (k / (GLYPH_WIDTH as int)) * GLYPH_WIDTH + k % (GLYPH_WIDTH as int),
{
}

/// The writes that paint `raster` at cell (`col`, `row`): one opaque gray
/// pixel per sample, row by row, at `(col * width + column, row * height + line)`.
pub fn raster_writes(col: usize, row: usize, raster: &Vec<Vec<u8>>) -> (r: Vec<PixelWrite>)
    requires
        is_cell_raster(rows_view(raster@)),
        cell_fits(col as int, row as int),
    ensures
        r@ == glyph_writes(col as int, row as int, rows_view(raster@)),
{
    let w = raster_width();
    let h = raster_height();
    let ghost target = glyph_writes(col as int, row as int, rows_view(raster@));
    let mut out: Vec<PixelWrite> = Vec::new();
    let mut ry: usize = 0;
    while ry < h
        invariant
            w == GLYPH_WIDTH,
            h == GLYPH_HEIGHT,
            ry <= h,
            is_cell_raster(rows_view(raster@)),
            cell_fits(col as int, row as int),
            target == glyph_writes(col as int, row as int, rows_view(raster@)),
            out@ == target.take(ry * w),
        decreases h - ry,
    {
        let line = &raster[ry];
        assert(rows_view(raster@)[ry as int] == line@);
        let mut cx: usize = 0;
        while cx < w
            invariant
                w == GLYPH_WIDTH,
                h == GLYPH_HEIGHT,
                ry < h,
                cx <= w,
                is_cell_raster(rows_view(raster@)),
                cell_fits(col as int, row as int),
                rows_view(raster@)[ry as int] == line@,
                target == glyph_writes(col as int, row as int, rows_view(raster@)),
                out@ == target.take(ry * w + cx),
            decreases w - cx,
        {
            let k = ry * w + cx;
            proof {
                lemma_fundamental_div_mod_converse(k as int, w as int, ry as int, cx as int);
            }
            let pw = PixelWrite { x: col * w + cx, y: row * h + ry, color: Color::gray(line[cx]) };
            out.push(pw);
            cx = cx + 1;
            proof {
                assert(pw == target[k as int]);
                assert(out@ =~= target.take(ry * w + cx));
            }
        }
        ry = ry + 1;
    }
    proof {
        assert(out@ =~= target);
    }
    out
}

/// The writes that paint character `c` at cell (`col`, `row`), or `None`
/// where the font atlas has no glyph for `c`.
pub fn char_writes(col: usize, row: usize, c: char) -> (r: Option<Vec<PixelWrite>>)
    requires
        cell_fits(col as int, row as int),
    ensures
        r.is_some() == glyph_raster(c).is_some(),
        r matches Some(ws) ==> ws@ == glyph_writes(col as int, row as int, glyph_raster(c).unwrap()),
{
    match lookup_raster(c) {
        Some(raster) => Some(raster_writes(col, row, &raster)),
        None => None,
    }
}


/// Video memory `mem` after the writes `ws`, in order, into a framebuffer
/// whose scanlines are `pitch` bytes apart.
pub open spec fn apply_writes(mem: Seq<u8>, pitch: int, ws: Seq<PixelWrite>) -> Seq<u8>
    decreases ws.len(),
{
    if ws.len() == 0 {
        mem
    } else {
        let last = ws.last();
        store32(
            apply_writes(mem, pitch, ws.drop_last()),
            offset_of(pitch, last.x as int, last.y as int),
            last.color.packed(),
        )
    }
}

impl Framebuffer {
    /// Performs the pixel writes `ws` in order.
    pub fn apply(&mut self, ws: &Vec<PixelWrite>)
        requires
            old(self).wf(),
            forall|i: int| 0 <= i < ws@.len() ==> old(self).in_bounds(#[trigger] ws@[i].x as int, ws@[i].y as int),
        ensures
            final(self).wf(),
            final(self).width == old(self).width,
            final(self).height == old(self).height,
            final(self).pitch == old(self).pitch,
            final(self).mem@ == apply_writes(old(self).mem@, old(self).pitch as int, ws@),
    {
        let ghost start = self.mem@;
        let mut i: usize = 0;
        while i < ws.len()
            invariant
                i <= ws@.len(),
                self.wf(),
                self.width == old(self).width,
                self.height == old(self).height,
                self.pitch == old(self).pitch,
                start == old(self).mem@,
                forall|j: int| 0 <= j < ws@.len() ==> self.in_bounds(#[trigger] ws@[j].x as int, ws@[j].y as int),
                self.mem@ == apply_writes(start, self.pitch as int, ws@.take(i as int)),
            decreases ws@.len() - i,
        {
            let w = ws[i];
            self.put_pixel(w.x, w.y, w.color);
            i = i + 1;
            proof {
                assert(ws@.take(i as int).drop_last() =~= ws@.take(i - 1));
            }
        }
        proof {
            assert(ws@.take(i as int) =~= ws@);
        }
    }

    /// Paints character `c` at cell (`col`, `row`). Where the font atlas has
    /// no glyph for `c` nothing is written and the character comes back as
    /// the error.
    pub fn put_char(&mut self, col: usize, row: usize, c: char) -> (r: Result<(), char>)
        requires
            old(self).wf(),
            col * GLYPH_WIDTH + GLYPH_WIDTH <= old(self).width,
            row * GLYPH_HEIGHT + GLYPH_HEIGHT <= old(self).height,
        ensures
            final(self).wf(),
            final(self).width == old(self).width,
            final(self).height == old(self).height,
            final(self).pitch == old(self).pitch,
            r is Ok == glyph_raster(c).is_some(),
            r is Ok ==> final(self).mem@ == apply_writes(
                old(self).mem@,
                old(self).pitch as int,
                glyph_writes(col as int, row as int, glyph_raster(c).unwrap()),
            ),
            r == Err::<(), char>(c) || r is Ok,
            r is Err ==> final(self).mem@ == old(self).mem@,
    {
        proof {
            assert(self.width * 4 <= self.pitch);
            assert(self.height * self.pitch <= usize::MAX);
            assert(self.width <= usize::MAX);
            assert(self.height <= usize::MAX);
        }
        match char_writes(col, row, c) {
            Some(ws) => {
                proof {
                    assert forall|i: int| 0 <= i < ws@.len() implies self.in_bounds(
                        #[trigger] ws@[i].x as int,
                        ws@[i].y as int,
                    ) by {
                        lemma_sample_position(i);
                    }
                }
                self.apply(&ws);
                Ok(())
            },
            None => Err(c),
        }
    }
}

/// Painting a glyph makes exactly `GLYPH_WIDTH * GLYPH_HEIGHT` pixel writes,
/// each to a distinct pixel of the cell, each an opaque gray.
pub proof fn lemma_glyph_writes_gray(col: int, row: int, raster: Seq<Seq<u8>>)
    requires
        cell_fits(col, row),
    ensures
        glyph_writes(col, row, raster).len() == GLYPH_WIDTH * GLYPH_HEIGHT,
        forall|k: int|
            0 <= k < GLYPH_WIDTH * GLYPH_HEIGHT ==> (#[trigger] glyph_writes(col, row, raster)[k]).color.is_opaque_gray(),
        forall|k: int|
            0 <= k < GLYPH_WIDTH * GLYPH_HEIGHT ==> {
                let w = #[trigger] glyph_writes(col, row, raster)[k];
                &&& col * GLYPH_WIDTH <= w.x < col * GLYPH_WIDTH + GLYPH_WIDTH
                &&& row * GLYPH_HEIGHT <= w.y < row * GLYPH_HEIGHT + GLYPH_HEIGHT
            },
        forall|i: int, j: int|
            0 <= i < j < GLYPH_WIDTH * GLYPH_HEIGHT ==> {
                let a = #[trigger] glyph_writes(col, row, raster)[i];
                let b = #[trigger] glyph_writes(col, row, raster)[j];
                a.x != b.x || a.y != b.y
            },
{
    assert forall|k: int| 0 <= k < GLYPH_WIDTH * GLYPH_HEIGHT implies {
        let w = #[trigger] glyph_writes(col, row, raster)[k];
        &&& col * GLYPH_WIDTH <= w.x < col * GLYPH_WIDTH + GLYPH_WIDTH
        &&& row * GLYPH_HEIGHT <= w.y < row * GLYPH_HEIGHT + GLYPH_HEIGHT
    } by {
        lemma_sample_position(k);
    }
    assert forall|i: int, j: int| 0 <= i < j < GLYPH_WIDTH * GLYPH_HEIGHT implies {
        let a = #[trigger] glyph_writes(col, row, raster)[i];
        let b = #[trigger] glyph_writes(col, row, raster)[j];
        a.x != b.x || a.y != b.y
    } by {
        lemma_sample_position(i);
        lemma_sample_position(j);
    }
}

/// Painting a glyph at cell (`col`, `row`) makes the same writes, in the same
/// order, as painting it at cell (0, 0), shifted by
/// `(col * GLYPH_WIDTH, row * GLYPH_HEIGHT)` pixels.
pub proof fn lemma_glyph_writes_shift(col: int, row: int, raster: Seq<Seq<u8>>)
    requires
        cell_fits(col, row),
    ensures
        glyph_writes(col, row, raster).len() == glyph_writes(0, 0, raster).len(),
        forall|k: int|
            0 <= k < GLYPH_WIDTH * GLYPH_HEIGHT ==> {
                let here = #[trigger] glyph_writes(col, row, raster)[k];
                let origin = glyph_writes(0, 0, raster)[k];
                &&& here.x == origin.x + col * GLYPH_WIDTH
                &&& here.y == origin.y + row * GLYPH_HEIGHT
                &&& here.color == origin.color
            },
{
    assert forall|k: int| 0 <= k < GLYPH_WIDTH * GLYPH_HEIGHT implies {
        let here = #[trigger] glyph_writes(col, row, raster)[k];
        let origin = glyph_writes(0, 0, raster)[k];
        &&& here.x == origin.x + col * GLYPH_WIDTH
        &&& here.y == origin.y + row * GLYPH_HEIGHT
        &&& here.color == origin.color
    } by {
        lemma_sample_position(k);
    }
}

} // verus!
