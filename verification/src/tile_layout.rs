//! How many tiles cover a canvas, and where the canvas sits inside the tiled pattern.

use vstd::prelude::*;
use vstd::arithmetic::div_mod::{lemma_div_denominator, lemma_fundamental_div_mod, lemma_mod_bound};
use vstd::arithmetic::mul::{lemma_mul_is_associative, lemma_mul_upper_bound};

verus! {

/// Edge length of one tile on the canvas: the texture's side, each pixel blown up
/// `scale_factor` times.
pub open spec fn tile_span(tile_side: int, scale_factor: int) -> int {
    tile_side * scale_factor
}

/// Number of tiles laid along an axis of length `canvas`: as many as fit whole, and one more.
pub open spec fn tiles_needed(canvas: int, tile_side: int, scale_factor: int) -> int {
    canvas / tile_span(tile_side, scale_factor) + 1
}

/// Length of the tiled pattern along an axis.
pub open spec fn rendered_size(canvas: int, tile_side: int, scale_factor: int) -> int {
    tiles_needed(canvas, tile_side, scale_factor) * tile_side * scale_factor
}

/// Where the canvas starts inside the pattern, so that the pattern overhangs the
/// canvas by the same amount at both ends (the odd pixel goes to the far end).
pub open spec fn centering_offset(canvas: int, tile_side: int, scale_factor: int) -> int {
    -(canvas - rendered_size(canvas, tile_side, scale_factor)) / 2
}

/// Where the pattern's first pixel lands on the canvas: as far before the canvas's
/// first pixel as the canvas starts inside the pattern.
pub open spec fn pattern_shift(canvas: int, tile_side: int, scale_factor: int) -> int {
    -centering_offset(canvas, tile_side, scale_factor)
}

/// The pattern length written with the span: `count * span`.
pub proof fn lemma_rendered_size_is_count_times_span(canvas: int, tile_side: int, scale_factor: int)
    ensures
        rendered_size(canvas, tile_side, scale_factor) == tiles_needed(
            canvas,
            tile_side,
            scale_factor,
        ) * tile_span(tile_side, scale_factor),
{
    lemma_mul_is_associative(tiles_needed(canvas, tile_side, scale_factor), tile_side, scale_factor);
}

/// The count can be worked out in two steps: first how many unscaled tiles fit,
/// then how many scaled ones.
pub proof fn lemma_count_in_two_steps(canvas: int, tile_side: int, scale_factor: int)
    requires
        0 <= canvas,
        0 < tile_side,
        0 < scale_factor,
    ensures
        tiles_needed(canvas, tile_side, scale_factor) == canvas / tile_side / scale_factor + 1,
{
    lemma_div_denominator(canvas, tile_side, scale_factor);
}

/// The pattern is longer than the canvas, by at most one tile.
pub proof fn lemma_overscan(canvas: int, tile_side: int, scale_factor: int)
    requires
        0 <= canvas,
        0 < tile_side,
        0 < scale_factor,
    ensures
        canvas < rendered_size(canvas, tile_side, scale_factor),
        rendered_size(canvas, tile_side, scale_factor) <= canvas + tile_span(tile_side, scale_factor),
{
    let span = tile_span(tile_side, scale_factor);
    assert(0 < span) by (nonlinear_arith)
        requires
            span == tile_side * scale_factor,
            0 < tile_side,
            0 < scale_factor,
    ;
    lemma_rendered_size_is_count_times_span(canvas, tile_side, scale_factor);
    lemma_fundamental_div_mod(canvas, span);
    lemma_mod_bound(canvas, span);
    let q = canvas / span;
    assert((q + 1) * span == span * q + span) by (nonlinear_arith);
}

/// The canvas window lies inside the pattern: it starts at or after the pattern's
/// first pixel and ends at or before its last, so no canvas pixel is left bare.
pub proof fn lemma_canvas_inside_pattern(canvas: int, tile_side: int, scale_factor: int)
    requires
        0 <= canvas,
        0 < tile_side,
        0 < scale_factor,
    ensures
        0 <= centering_offset(canvas, tile_side, scale_factor),
        centering_offset(canvas, tile_side, scale_factor) + canvas <= rendered_size(
            canvas,
            tile_side,
            scale_factor,
        ),
        2 * centering_offset(canvas, tile_side, scale_factor) <= tile_span(tile_side, scale_factor),
{
    lemma_overscan(canvas, tile_side, scale_factor);
}

/// The pattern is never shifted into the canvas, and never more than one tile out
/// of it.
pub proof fn lemma_pattern_shift_within_one_tile(canvas: int, tile_side: int, scale_factor: int)
    requires
        0 <= canvas,
        0 < tile_side,
        0 < scale_factor,
    ensures
        pattern_shift(canvas, tile_side, scale_factor) <= 0,
        vstd::math::abs(pattern_shift(canvas, tile_side, scale_factor)) <= tile_span(
            tile_side,
            scale_factor,
        ),
{
    lemma_canvas_inside_pattern(canvas, tile_side, scale_factor);
}

/// Where the pattern overhangs the canvas by no more than one pixel, the offset is
/// not positive, and its size is at most one tile.
pub proof fn lemma_offset_not_positive(canvas: int, tile_side: int, scale_factor: int)
    requires
        0 < canvas,
        0 < tile_side,
        0 < scale_factor,
        rendered_size(canvas, tile_side, scale_factor) - canvas <= 1,
    ensures
        centering_offset(canvas, tile_side, scale_factor) <= 0,
        vstd::math::abs(centering_offset(canvas, tile_side, scale_factor)) <= tile_span(
            tile_side,
            scale_factor,
        ),
{
    lemma_canvas_inside_pattern(canvas, tile_side, scale_factor);
}

/// Tile counts for both axes of a canvas and the place of the canvas inside the pattern.
#[derive(Clone, Copy, Debug, PartialEq, Eq, Structural)]
pub struct TileLayout {
    /// Tiles in one row.
    pub horizontal_count: u64,
    /// Rows of tiles.
    pub vertical_count: u64,
    /// Pattern column shown in the canvas's first column.
    pub offset_x: i64,
    /// Pattern row shown in the canvas's first row.
    pub offset_y: i64,
}

impl TileLayout {
    /// The layout that `compute_layout` owes for these inputs.
    pub open spec fn is_layout_of(
        self,
        canvas_width: int,
        canvas_height: int,
        tile_side: int,
        scale_factor: int,
    ) -> bool {
        &&& self.horizontal_count == tiles_needed(canvas_width, tile_side, scale_factor)
        &&& self.vertical_count == tiles_needed(canvas_height, tile_side, scale_factor)
        &&& self.offset_x == centering_offset(canvas_width, tile_side, scale_factor)
        &&& self.offset_y == centering_offset(canvas_height, tile_side, scale_factor)
    }
}

/// Count and offset along one axis.
fn axis_layout(canvas: u32, tile_side: u32, scale_factor: u32) -> (r: (u64, i64))
    requires
        tile_side > 0,
        scale_factor > 0,
    ensures
        r.0 == tiles_needed(canvas as int, tile_side as int, scale_factor as int),
        r.1 == centering_offset(canvas as int, tile_side as int, scale_factor as int),
{
    let fitting: u32 = canvas / tile_side / scale_factor;
    let count: u64 = fitting as u64 + 1;
    proof {
        lemma_count_in_two_steps(canvas as int, tile_side as int, scale_factor as int);
        lemma_overscan(canvas as int, tile_side as int, scale_factor as int);
        lemma_rendered_size_is_count_times_span(canvas as int, tile_side as int, scale_factor as int);
        lemma_mul_upper_bound(
            tile_side as int,
            u32::MAX as int,
            scale_factor as int,
            u32::MAX as int,
        );
    }
    let span: u64 = tile_side as u64 * scale_factor as u64;
    let rendered: u64 = count * span;
    let overhang: u64 = rendered - canvas as u64;
    ((count, (overhang / 2) as i64))
}

/// Lays tiles of `tile_side` pixels, each pixel drawn `scale_factor` pixels wide, over
/// a canvas: one tile more per axis than fits whole, the canvas centred on the pattern.
pub fn compute_layout(canvas_width: u32, canvas_height: u32, tile_side: u32, scale_factor: u32) -> (layout:
    TileLayout)
    requires
        tile_side > 0,
        scale_factor > 0,
    ensures
        layout.is_layout_of(
            canvas_width as int,
            canvas_height as int,
            tile_side as int,
            scale_factor as int,
        ),
        layout.horizontal_count * tile_side * scale_factor >= canvas_width,
        layout.vertical_count * tile_side * scale_factor >= canvas_height,
        0 <= layout.offset_x <= tile_side * scale_factor,
        0 <= layout.offset_y <= tile_side * scale_factor,
{
    let (horizontal_count, offset_x) = axis_layout(canvas_width, tile_side, scale_factor);
    let (vertical_count, offset_y) = axis_layout(canvas_height, tile_side, scale_factor);
    proof {
        lemma_overscan(canvas_width as int, tile_side as int, scale_factor as int);
        lemma_overscan(canvas_height as int, tile_side as int, scale_factor as int);
        lemma_canvas_inside_pattern(canvas_width as int, tile_side as int, scale_factor as int);
        lemma_canvas_inside_pattern(canvas_height as int, tile_side as int, scale_factor as int);
    }
    TileLayout { horizontal_count, vertical_count, offset_x, offset_y }
}

} // verus!
