use vstd::prelude::*;

use noto_sans_mono_bitmap::{get_raster, get_raster_width, FontWeight, RasterHeight};

verus! {

/// Width in pixels of every glyph of the regular, 24-pixel-high font.
pub const GLYPH_WIDTH: usize = 11;

/// Height in pixels of every glyph of the regular, 24-pixel-high font.
pub const GLYPH_HEIGHT: usize = 24;

/// The intensity raster, row by row, that the font atlas holds for `c` at
/// regular weight and 24-pixel height, or `None` where the atlas lacks `c`.
pub uninterp spec fn glyph_raster(c: char) -> Option<Seq<Seq<u8>>>;

pub open spec fn rows_view(rows: Seq<Vec<u8>>) -> Seq<Seq<u8>> {
    rows.map_values(|row: Vec<u8>| row@)
}

/// A raster of `GLYPH_HEIGHT` rows of `GLYPH_WIDTH` samples each.
pub open spec fn is_cell_raster(raster: Seq<Seq<u8>>) -> bool {
    &&& raster.len() == GLYPH_HEIGHT
    &&& forall|i: int| 0 <= i < raster.len() ==> (#[trigger] raster[i]).len() == GLYPH_WIDTH
}

/// Relies on noto_sans_mono_bitmap::get_raster_width: the fixed glyph width
/// of the regular weight at 24-pixel height (11 in the font's tables).
#[verifier::external_body]
pub(crate) fn raster_width() -> (r: usize)
    ensures
        r == GLYPH_WIDTH,
{
    get_raster_width(FontWeight::Regular, RasterHeight::Size24)
}

/// Relies on noto_sans_mono_bitmap::RasterHeight::val: the pixel height that
/// the 24-pixel raster class stands for.
#[verifier::external_body]
pub(crate) fn raster_height() -> (r: usize)
    ensures
        r == GLYPH_HEIGHT,
{
    RasterHeight::Size24.val()
}

/// Relies on noto_sans_mono_bitmap::get_raster at regular weight and 24-pixel
/// height: `None` for a character the atlas lacks, else its raster, which the
/// crate documents as `height` rows of the weight's fixed `width`.
#[verifier::external_body]
pub(crate) fn lookup_raster(c: char) -> (r: Option<Vec<Vec<u8>>>)
    ensures
        r.is_some() == glyph_raster(c).is_some(),
        r matches Some(rows) ==> glyph_raster(c) == Some(rows_view(rows@)),
        r matches Some(rows) ==> is_cell_raster(rows_view(rows@)),
{
    get_raster(c, FontWeight::Regular, RasterHeight::Size24).map(
        |g| g.raster().iter().map(|row| row.to_vec()).collect(),
    )
}

} // verus!
