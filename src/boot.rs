use vstd::prelude::*;

use crate::font::{glyph_raster, GLYPH_HEIGHT, GLYPH_WIDTH};
use vstd::arithmetic::div_mod::lemma_fundamental_div_mod_converse;

use crate::glyph::{char_writes, glyph_writes, lemma_glyph_writes_gray, PixelWrite};

verus! {

/// The writes that painting the first `n` characters of `text` at cell row
/// `row` makes, character `i` at cell column `i`.
pub open spec fn text_writes_upto(row: int, text: Seq<char>, n: int) -> Seq<PixelWrite>
    decreases n,
{
    if n <= 0 {
        Seq::empty()
    } else {
        text_writes_upto(row, text, n - 1) + glyph_writes(
            n - 1,
            row,
            glyph_raster(text[n - 1]).unwrap(),
        )
    }
}

/// The font atlas has a glyph for each of the first `n` characters of `text`.
pub open spec fn all_known(text: Seq<char>, n: int) -> bool {
    forall|j: int| 0 <= j < n ==> (#[trigger] glyph_raster(text[j])).is_some()
}

/// What painting a line of text did: the pixel writes in order, and the
/// index of the character the font atlas lacks, where painting stopped.
pub struct TextPaint {
    pub writes: Vec<PixelWrite>,
    pub unknown_at: Option<usize>,
}

/// The characters of a line fit, as cells, in pixel coordinates.
pub open spec fn line_fits(row: int, len: int) -> bool {
    &&& 0 <= row
    &&& len * GLYPH_WIDTH <= usize::MAX
    &&& row * GLYPH_HEIGHT + GLYPH_HEIGHT <= usize::MAX
}

/// Tells whether a line of `len` characters at cell row `row` fits in pixel
/// coordinates.
pub fn fits_line(row: usize, len: usize) -> (r: bool)
    ensures
        r == line_fits(row as int, len as int),
{
    len <= usize::MAX / GLYPH_WIDTH && row <= (usize::MAX - GLYPH_HEIGHT) / GLYPH_HEIGHT
}

/// Paints `text` at cell row `row`, one character per cell column from 0.
/// The first character without a glyph stops the painting: the glyphs before
/// it are painted, none after it.
pub fn text_writes(row: usize, text: &Vec<char>) -> (r: TextPaint)
    requires
        line_fits(row as int, text@.len() as int),
    ensures
        match r.unknown_at {
            None => all_known(text@, text@.len() as int) && r.writes@ == text_writes_upto(
                row as int,
                text@,
                text@.len() as int,
            ),
            Some(k) => k < text@.len() && glyph_raster(text@[k as int]) is None && all_known(
                text@,
                k as int,
            ) && r.writes@ == text_writes_upto(row as int, text@, k as int),
        },
{
    let mut writes: Vec<PixelWrite> = Vec::new();
    let mut i: usize = 0;
    while i < text.len()
        invariant
            i <= text@.len(),
            line_fits(row as int, text@.len() as int),
            all_known(text@, i as int),
            writes@ == text_writes_upto(row as int, text@, i as int),
        decreases text@.len() - i,
    {
        proof {
            assert(i * GLYPH_WIDTH + GLYPH_WIDTH <= text@.len() * GLYPH_WIDTH);
        }
        match char_writes(i, row, text[i]) {
            Some(ws) => {
                let mut ws = ws;
                writes.append(&mut ws);
                i = i + 1;
                proof {
                    assert(all_known(text@, i as int)) by {
                        assert forall|j: int| 0 <= j < i implies (#[trigger] glyph_raster(
                            text@[j],
                        )).is_some() by {
                            if j < i - 1 {
                                assert(glyph_raster(text@[j]).is_some());
                            }
                        }
                    }
                }
            },
            None => {
                return TextPaint { writes, unknown_at: Some(i) };
            },
        }
    }
    TextPaint { writes, unknown_at: None }
}

/// Painting the first `n` characters of a line makes `GLYPH_WIDTH *
/// GLYPH_HEIGHT` writes per character, and write `i` lands in the cell of
/// character `i / (GLYPH_WIDTH * GLYPH_HEIGHT)`: no write reaches the cell of
/// a later character, and the cells of two characters never share a pixel.
pub proof fn lemma_text_writes_cells(row: int, text: Seq<char>, n: int)
    requires
        0 <= n,
        line_fits(row, n),
    ensures
        text_writes_upto(row, text, n).len() == n * (GLYPH_WIDTH * GLYPH_HEIGHT),
        forall|i: int|
            0 <= i < n * (GLYPH_WIDTH * GLYPH_HEIGHT) ==> {
                let w = #[trigger] text_writes_upto(row, text, n)[i];
                let cell = i / (GLYPH_WIDTH * GLYPH_HEIGHT) as int;
                &&& cell * GLYPH_WIDTH <= w.x < cell * GLYPH_WIDTH + GLYPH_WIDTH
                &&& row * GLYPH_HEIGHT <= w.y < row * GLYPH_HEIGHT + GLYPH_HEIGHT
            },
    decreases n,
{
    if n > 0 {
        let cells = (GLYPH_WIDTH * GLYPH_HEIGHT) as int;
        lemma_text_writes_cells(row, text, n - 1);
        let prev = text_writes_upto(row, text, n - 1);
        let raster = glyph_raster(text[n - 1]).unwrap();
        lemma_glyph_writes_gray(n - 1, row, raster);
        let all = text_writes_upto(row, text, n);
        assert(all == prev + glyph_writes(n - 1, row, raster));
        assert forall|i: int| 0 <= i < n * cells implies {
            let w = #[trigger] all[i];
            let cell = i / cells;
            &&& cell * GLYPH_WIDTH <= w.x < cell * GLYPH_WIDTH + GLYPH_WIDTH
            &&& row * GLYPH_HEIGHT <= w.y < row * GLYPH_HEIGHT + GLYPH_HEIGHT
        } by {
            if i < (n - 1) * cells {
                assert(all[i] == prev[i]);
            } else {
                let k = i - (n - 1) * cells;
                lemma_fundamental_div_mod_converse(i, cells, n - 1, k);
                assert(all[i] == glyph_writes(n - 1, row, raster)[k]);
            }
        }
    }
}

/// The line painted at boot.
pub open spec fn banner_spec() -> Seq<char> {
    seq!['H', 'e', 'l', 'l', 'o', ' ', 'W', 'o', 'r', 'l', 'd', '!']
}

/// The characters of the line painted at boot.
pub fn banner() -> (r: Vec<char>)
    ensures
        r@ == banner_spec(),
{
    let r = vec!['H', 'e', 'l', 'l', 'o', ' ', 'W', 'o', 'r', 'l', 'd', '!'];
    assert(r@ =~= banner_spec());
    r
}

/// Why a boot run took the fatal path.
#[derive(Clone, Copy, Debug, PartialEq, Eq, Structural)]
pub enum Fatal {
    /// The boot loader does not support the base revision this kernel asks for.
    UnsupportedRevision,
    /// The font atlas has no glyph for this character of the painted line.
    UnsupportedChar(char),
}

/// The stages of a boot run, in order. `Halted` is terminal.
#[derive(Clone, Copy, Debug, PartialEq, Eq, Structural)]
pub enum BootState {
    Unstarted,
    RevisionChecked,
    FramebufferObtained,
    TextPainted,
    Halted,
}

/// The fatal-failure handler: whatever went wrong and wherever, the machine
/// goes to the halted state and nothing more is drawn.
pub fn rust_panic(cause: Fatal) -> (r: BootState)
    ensures
        r == BootState::Halted,
{
    BootState::Halted
}

/// A whole boot run: the pixel writes made, in order, whether the run ended
/// through the fatal path, and the state it ended in.
pub struct BootRun {
    pub writes: Vec<PixelWrite>,
    pub fatal: Option<Fatal>,
    pub end: BootState,
}

/// The boot sequence: check the boot-protocol revision (fatal when
/// unsupported), skip painting when there is no framebuffer, else paint `text`
/// on cell row 0 and stop at the first character without a glyph (fatal).
pub fn boot_sequence(revision_supported: bool, framebuffer_present: bool, text: &Vec<char>) -> (r: BootRun)
    requires
        line_fits(0, text@.len() as int),
    ensures
        r.end == BootState::Halted,
        !revision_supported ==> r.writes@.len() == 0 && r.fatal == Some(Fatal::UnsupportedRevision),
        revision_supported && !framebuffer_present ==> r.writes@.len() == 0 && r.fatal is None,
        revision_supported && framebuffer_present ==> match r.fatal {
            None => all_known(text@, text@.len() as int) && r.writes@ == text_writes_upto(
                0,
                text@,
                text@.len() as int,
            ),
            Some(f) => exists|k: int|
                0 <= k < text@.len() && f == Fatal::UnsupportedChar(text@[k]) && glyph_raster(
                    #[trigger] text@[k],
                ) is None && all_known(text@, k) && r.writes@ == text_writes_upto(0, text@, k),
        },
{
    if !revision_supported {
        let cause = Fatal::UnsupportedRevision;
        return BootRun { writes: Vec::new(), fatal: Some(cause), end: rust_panic(cause) };
    }
    if !framebuffer_present {
        return BootRun { writes: Vec::new(), fatal: None, end: BootState::Halted };
    }
    let painted = text_writes(0, text);
    match painted.unknown_at {
        None => BootRun { writes: painted.writes, fatal: None, end: BootState::Halted },
        Some(k) => {
            let cause = Fatal::UnsupportedChar(text[k]);
            BootRun { writes: painted.writes, fatal: Some(cause), end: rust_panic(cause) }
        },
    }
}

} // verus!
