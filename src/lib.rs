//! Boot-time display primitives: 32-bit pixel stores into a framebuffer with an
//! arbitrary byte pitch, glyph rasterization from a bitmap font atlas, and the
//! boot sequence that paints a line of text before the machine halts.

mod boot;
mod color;
mod font;
mod framebuffer;
mod glyph;

pub use boot::{
    all_known, banner, banner_spec, boot_sequence, fits_line, lemma_text_writes_cells, line_fits,
    rust_panic, text_writes, text_writes_upto, BootRun, BootState, Fatal, TextPaint,
};
pub use color::{lemma_unpack_packed, unpack, Color};
pub use font::{glyph_raster, is_cell_raster, rows_view, GLYPH_HEIGHT, GLYPH_WIDTH};
pub use framebuffer::{
    lemma_pixel_in_memory, lemma_pixel_round_trip, lemma_store_load, load32, offset_of,
    pixel_offset, store32, Framebuffer,
};
pub use glyph::{
    apply_writes, cell_fits, char_writes, glyph_write, glyph_writes, lemma_glyph_writes_gray,
    lemma_glyph_writes_shift, lemma_sample_position, raster_writes, PixelWrite,
};
