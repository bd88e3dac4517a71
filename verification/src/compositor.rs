//! Where each tile of the pattern is drawn and how it is turned.

use crate::random_helper::RandomHelper;
use crate::tile_layout::{
    compute_layout, lemma_canvas_inside_pattern, lemma_rendered_size_is_count_times_span, tile_span,
    tiles_needed, TileLayout,
};
use vstd::arithmetic::div_mod::{
    lemma_fundamental_div_mod, lemma_fundamental_div_mod_converse, lemma_mod_bound,
};
use vstd::prelude::*;

verus! {

/// Quarter turns given to the tile in a cell of the terracotta pattern. The pattern
/// repeats every two columns and every two rows: no turn where column and row are
/// even, one where only the column is odd, three where only the row is odd, two
/// where both are odd.
pub open spec fn quarter_turns(column: int, row: int) -> int {
    if column % 2 == 0 {
        if row % 2 == 0 {
            0
        } else {
            3
        }
    } else {
        if row % 2 == 0 {
            1
        } else {
            2
        }
    }
}

/// The turn of a cell's tile in degrees.
pub open spec fn rotation_degrees(column: int, row: int) -> int {
    90 * quarter_turns(column, row)
}

/// The terracotta pattern repeats every two columns and every two rows, and within
/// a block of two by two cells no two tiles are turned alike.
pub proof fn lemma_rotation_pattern(column: int, row: int)
    ensures
        rotation_degrees(column + 2, row) == rotation_degrees(column, row),
        rotation_degrees(column, row + 2) == rotation_degrees(column, row),
        rotation_degrees(column + 1, row) != rotation_degrees(column, row),
        rotation_degrees(column, row + 1) != rotation_degrees(column, row),
        rotation_degrees(column + 1, row + 1) != rotation_degrees(column, row),
{
}

/// The turn, in degrees, of the tile in the given cell of the terracotta pattern.
pub fn rotation_for_cell(column: u64, row: u64) -> (degrees: u16)
    ensures
        degrees == rotation_degrees(column as int, row as int),
        degrees == 0 || degrees == 90 || degrees == 180 || degrees == 270,
{
    let odd_column: bool = column % 2 == 1;
    let odd_row: bool = row % 2 == 1;
    if odd_column {
        if odd_row {
            180
        } else {
            90
        }
    } else {
        if odd_row {
            270
        } else {
            0
        }
    }
}

/// The point of a tile that is put at its place and about which it is turned.
#[derive(Clone, Copy, Debug, PartialEq, Eq, Structural)]
pub enum Pivot {
    /// The tile's top-left corner, put on the top-left corner of its cell.
    TopLeft,
    /// The tile's centre, put on the centre of its cell, half a tile further right
    /// and down than the cell's corner.
    Center,
}

/// One copy of a texture in the pattern.
#[derive(Clone, Copy, Debug, PartialEq, Eq, Structural)]
pub struct TilePlacement {
    /// Left edge of the tile's cell, in pattern pixels.
    pub x: u64,
    /// Top edge of the tile's cell, in pattern pixels.
    pub y: u64,
    /// Turn about the pivot, in degrees.
    pub rotation: u16,
    /// The point that is placed and turned about.
    pub pivot: Pivot,
    /// Which of the loaded textures is drawn.
    pub texture: usize,
}

impl TilePlacement {
    /// The tile fills the cell in the given column and row of a grid of cells `span` wide.
    pub open spec fn fills_cell(self, column: int, row: int, span: int) -> bool {
        &&& self.x == column * span
        &&& self.y == row * span
    }

    /// The tile is drawn as it is, from its cell's top-left corner.
    pub open spec fn is_upright(self) -> bool {
        &&& self.rotation == 0
        &&& self.pivot == Pivot::TopLeft
    }

    /// The tile is turned about its cell's centre as the terracotta pattern asks
    /// for the given cell.
    pub open spec fn is_turned_for(self, column: int, row: int) -> bool {
        &&& self.rotation == rotation_degrees(column, row)
        &&& self.pivot == Pivot::Center
    }

    /// Twice the pattern coordinates of the point on which the tile's pivot is put:
    /// the cell's corner, or its centre, half a span further right and down.
    /// Twice, because the centre of a cell of odd span lies between two pixels.
    pub open spec fn pivot_doubled(self, span: int) -> (int, int) {
        match self.pivot {
            Pivot::TopLeft => (2 * self.x, 2 * self.y),
            Pivot::Center => (2 * self.x + span, 2 * self.y + span),
        }
    }

    /// Twice the pattern coordinates of the point on which the tile's pivot is put.
    pub fn pivot_position_doubled(&self, span: u64) -> (point: (u128, u128))
        ensures
            point.0 == self.pivot_doubled(span as int).0,
            point.1 == self.pivot_doubled(span as int).1,
    {
        match self.pivot {
            Pivot::TopLeft => (2 * (self.x as u128), 2 * (self.y as u128)),
            Pivot::Center => (
                2 * (self.x as u128) + span as u128,
                2 * (self.y as u128) + span as u128,
            ),
        }
    }

    /// Left edge of the tile's cell on the canvas, which starts `offset_x` pixels
    /// into the pattern.
    pub open spec fn canvas_x(self, layout: TileLayout) -> int {
        self.x - layout.offset_x
    }

    /// Top edge of the tile's cell on the canvas.
    pub open spec fn canvas_y(self, layout: TileLayout) -> int {
        self.y - layout.offset_y
    }

    /// The tile's cell, `span` pixels wide and high, holds the canvas pixel in
    /// column `px` of row `py`.
    pub open spec fn holds_pixel(self, layout: TileLayout, span: int, px: int, py: int) -> bool {
        &&& self.canvas_x(layout) <= px < self.canvas_x(layout) + span
        &&& self.canvas_y(layout) <= py < self.canvas_y(layout) + span
    }
}

/// What to draw for one picture: the layout, the tiles in drawing order (row by
/// row from the top, each row from the left), and whether the finished picture
/// has to pass the corner test before it is kept.
#[derive(Debug, PartialEq, Eq)]
pub struct RenderPlan {
    /// Tile counts and the place of the canvas inside the pattern.
    pub layout: TileLayout,
    /// Edge length of a tile on the canvas.
    pub span: u64,
    /// The tiles, in drawing order.
    pub tiles: Vec<TilePlacement>,
    /// Whether the picture is kept only if its corners are opaque.
    pub gated: bool,
}

impl RenderPlan {
    /// The plan lays out a canvas of the given size with tiles of the given size
    /// and holds one tile for every cell, in row-major order.
    pub open spec fn covers_grid(
        self,
        canvas_width: int,
        canvas_height: int,
        tile_side: int,
        scale_factor: int,
    ) -> bool {
        &&& self.layout.is_layout_of(canvas_width, canvas_height, tile_side, scale_factor)
        &&& self.span == tile_span(tile_side, scale_factor)
        &&& self.tiles@.len() == self.layout.horizontal_count * self.layout.vertical_count
        &&& forall|k: int|
            0 <= k < self.tiles@.len() ==> (#[trigger] self.tiles@[k]).fills_cell(
                k % (self.layout.horizontal_count as int),
                k / (self.layout.horizontal_count as int),
                self.span as int,
            )
    }

    /// Every tile is upright and shows the first texture.
    pub open spec fn all_upright(self) -> bool {
        forall|k: int|
            0 <= k < self.tiles@.len() ==> (#[trigger] self.tiles@[k]).is_upright()
                && self.tiles@[k].texture == 0
    }

    /// Every tile is upright and shows a texture whose weight is not zero.
    pub open spec fn all_drawn_from(self, weights: Seq<u32>) -> bool {
        forall|k: int|
            0 <= k < self.tiles@.len() ==> (#[trigger] self.tiles@[k]).is_upright()
                && self.tiles@[k].texture < weights.len() && weights[self.tiles@[k].texture as int]
                > 0
    }

    /// Every tile shows the first texture, turned as the terracotta pattern asks
    /// for its cell.
    pub open spec fn all_turned(self) -> bool {
        forall|k: int|
            0 <= k < self.tiles@.len() ==> (#[trigger] self.tiles@[k]).is_turned_for(
                k % (self.layout.horizontal_count as int),
                k / (self.layout.horizontal_count as int),
            ) && self.tiles@[k].texture == 0
    }
}

/// The grid of a canvas can be held in memory as a list of tiles.
pub open spec fn grid_fits(canvas_width: int, canvas_height: int, tile_side: int, scale_factor: int) -> bool {
    tiles_needed(canvas_width, tile_side, scale_factor) * tiles_needed(
        canvas_height,
        tile_side,
        scale_factor,
    ) <= usize::MAX
}

/// The number of cells of a layout, if a list of tiles can hold as many.
pub fn grid_size(layout: &TileLayout) -> (cells: Option<usize>)
    ensures
        match cells {
            Some(n) => n == layout.horizontal_count * layout.vertical_count,
            None => layout.horizontal_count * layout.vertical_count > usize::MAX,
        },
{
    match layout.horizontal_count.checked_mul(layout.vertical_count) {
        Some(cells) => {
            if cells <= usize::MAX as u64 {
                Some(cells as usize)
            } else {
                None
            }
        },
        None => None,
    }
}

/// The cell of a grid of cells `span` wide that holds position `at` is the one
/// numbered `at / span`, and no other.
proof fn lemma_cell_of_position(at: int, span: int, cells: int, cell: int)
    requires
        0 < span,
        0 <= at < cells * span,
    ensures
        0 <= at / span < cells,
        (at / span) * span <= at < (at / span) * span + span,
        cell * span <= at < cell * span + span ==> cell == at / span,
{
    lemma_fundamental_div_mod(at, span);
    lemma_mod_bound(at, span);
    let q = at / span;
    assert(q * span == span * q) by (nonlinear_arith);
    assert(0 <= q < cells) by (nonlinear_arith)
        requires
            0 < span,
            0 <= at < cells * span,
            q * span <= at < q * span + span,
    ;
    if cell * span <= at < cell * span + span {
        assert(cell == q) by (nonlinear_arith)
            requires
                0 < span,
                cell * span <= at < cell * span + span,
                q * span <= at < q * span + span,
        ;
    }
}

/// Every pixel of the canvas lies in the cell of exactly one tile of the plan: the
/// pattern leaves no gap on the canvas, and no two tiles share a pixel.
pub proof fn lemma_every_pixel_is_covered(
    plan: RenderPlan,
    canvas_width: int,
    canvas_height: int,
    tile_side: int,
    scale_factor: int,
    px: int,
    py: int,
) -> (k: int)
    requires
        0 < tile_side,
        0 < scale_factor,
        0 <= px < canvas_width,
        0 <= py < canvas_height,
        plan.covers_grid(canvas_width, canvas_height, tile_side, scale_factor),
    ensures
        0 <= k < plan.tiles@.len(),
        plan.tiles@[k].holds_pixel(plan.layout, plan.span as int, px, py),
        forall|j: int|
            0 <= j < plan.tiles@.len() && (#[trigger] plan.tiles@[j]).holds_pixel(
                plan.layout,
                plan.span as int,
                px,
                py,
            ) ==> j == k,
{
    let span = plan.span as int;
    let columns = plan.layout.horizontal_count as int;
    let rows = plan.layout.vertical_count as int;
    let across = px + plan.layout.offset_x;
    let down = py + plan.layout.offset_y;
    assert(0 < span) by (nonlinear_arith)
        requires
            span == tile_side * scale_factor,
            0 < tile_side,
            0 < scale_factor,
    ;
    lemma_canvas_inside_pattern(canvas_width, tile_side, scale_factor);
    lemma_canvas_inside_pattern(canvas_height, tile_side, scale_factor);
    lemma_rendered_size_is_count_times_span(canvas_width, tile_side, scale_factor);
    lemma_rendered_size_is_count_times_span(canvas_height, tile_side, scale_factor);
    lemma_cell_of_position(across, span, columns, 0);
    lemma_cell_of_position(down, span, rows, 0);
    let column = across / span;
    let row = down / span;
    let k = columns * row + column;
    assert(0 <= k < columns * rows) by (nonlinear_arith)
        requires
            0 <= column < columns,
            0 <= row < rows,
            k == columns * row + column,
    ;
    lemma_fundamental_div_mod_converse(k, columns, row, column);
    assert forall|j: int|
        0 <= j < plan.tiles@.len() && (#[trigger] plan.tiles@[j]).holds_pixel(
            plan.layout,
            span,
            px,
            py,
        ) implies j == k by {
        lemma_fundamental_div_mod(j, columns);
        lemma_cell_of_position(across, span, columns, j % columns);
        lemma_cell_of_position(down, span, rows, j / columns);
    }
    k
}

/// A cell of the grid lies within the grid, and its corner within the canvas.
proof fn lemma_cell_in_grid(k: int, columns: int, rows: int, span: int, width: int, height: int)
    requires
        0 < span,
        0 <= width,
        0 <= height,
        columns == width / span + 1,
        rows == height / span + 1,
        0 <= k < columns * rows,
    ensures
        0 <= k % columns < columns,
        0 <= k / columns < rows,
        0 <= (k % columns) * span <= width,
        0 <= (k / columns) * span <= height,
{
    lemma_fundamental_div_mod(width, span);
    lemma_fundamental_div_mod(height, span);
    lemma_mod_bound(width, span);
    lemma_mod_bound(height, span);
    lemma_fundamental_div_mod(k, columns);
    lemma_mod_bound(k, columns);
    let column = k % columns;
    let row = k / columns;
    assert(0 <= width / span && 0 <= height / span) by (nonlinear_arith)
        requires
            0 < span,
            0 <= width,
            0 <= height,
    ;
    assert(0 <= row < rows) by (nonlinear_arith)
        requires
            0 < columns,
            0 <= k < columns * rows,
            k == columns * row + column,
            0 <= column < columns,
    ;
    assert(0 <= column * span <= span * (width / span)) by (nonlinear_arith)
        requires
            0 <= column <= width / span,
            0 < span,
    ;
    assert(0 <= row * span <= span * (height / span)) by (nonlinear_arith)
        requires
            0 <= row <= height / span,
            0 < span,
    ;
}

/// Column, row and corner of the `k`-th cell in drawing order.
fn cell_corner(
    k: usize,
    layout: &TileLayout,
    span: u64,
    Ghost(width): Ghost<int>,
    Ghost(height): Ghost<int>,
) -> (cell: (u64, u64, u64, u64))
    requires
        0 < span,
        0 <= width <= u32::MAX,
        0 <= height <= u32::MAX,
        layout.horizontal_count == width / (span as int) + 1,
        layout.vertical_count == height / (span as int) + 1,
        k < layout.horizontal_count * layout.vertical_count,
    ensures
        cell.0 == k as int % (layout.horizontal_count as int),
        cell.1 == k as int / (layout.horizontal_count as int),
        cell.2 == cell.0 * span,
        cell.3 == cell.1 * span,
{
    proof {
        lemma_cell_in_grid(
            k as int,
            layout.horizontal_count as int,
            layout.vertical_count as int,
            span as int,
            width,
            height,
        );
    }
    let column: u64 = k as u64 % layout.horizontal_count;
    let row: u64 = k as u64 / layout.horizontal_count;
    (column, row, column * span, row * span)
}

/// Plans one picture of a single texture: lays the grid over the canvas and puts
/// one tile in every cell, row by row. With `is_terracotta` each tile is turned
/// about its cell's centre as the terracotta pattern asks; without, every tile
/// is upright. The picture has to pass the corner test before it is kept.
pub fn draw_sprite_and_handle_terracotta(
    is_terracotta: bool,
    scale_factor: u32,
    texture_side: u32,
    canvas_width: u32,
    canvas_height: u32,
) -> (plan: RenderPlan)
    requires
        texture_side > 0,
        scale_factor > 0,
        grid_fits(canvas_width as int, canvas_height as int, texture_side as int, scale_factor as int),
    ensures
        plan.covers_grid(
            canvas_width as int,
            canvas_height as int,
            texture_side as int,
            scale_factor as int,
        ),
        plan.gated,
        is_terracotta ==> plan.all_turned(),
        !is_terracotta ==> plan.all_upright(),
{
    let layout: TileLayout = compute_layout(canvas_width, canvas_height, texture_side, scale_factor);
    proof {
        lemma_span_fits(texture_side, scale_factor);
    }
    let span: u64 = texture_side as u64 * scale_factor as u64;
    let total: usize = (layout.horizontal_count * layout.vertical_count) as usize;
    let mut tiles: Vec<TilePlacement> = Vec::new();
    let mut k: usize = 0;
    while k < total
        invariant
            0 < span == tile_span(texture_side as int, scale_factor as int),
            layout.is_layout_of(
                canvas_width as int,
                canvas_height as int,
                texture_side as int,
                scale_factor as int,
            ),
            total == layout.horizontal_count * layout.vertical_count,
            k <= total,
            tiles@.len() == k,
            forall|j: int|
                0 <= j < k ==> (#[trigger] tiles@[j]).fills_cell(
                    j % (layout.horizontal_count as int),
                    j / (layout.horizontal_count as int),
                    span as int,
                ) && tiles@[j].texture == 0,
            is_terracotta ==> forall|j: int|
                0 <= j < k ==> (#[trigger] tiles@[j]).is_turned_for(
                    j % (layout.horizontal_count as int),
                    j / (layout.horizontal_count as int),
                ),
            !is_terracotta ==> forall|j: int| 0 <= j < k ==> (#[trigger] tiles@[j]).is_upright(),
        decreases total - k,
    {
        let (column, row, x, y) = cell_corner(
            k,
            &layout,
            span,
            Ghost(canvas_width as int),
            Ghost(canvas_height as int),
        );
        let tile: TilePlacement = if is_terracotta {
            TilePlacement { x, y, rotation: rotation_for_cell(column, row), pivot: Pivot::Center, texture: 0 }
        } else {
            TilePlacement { x, y, rotation: 0, pivot: Pivot::TopLeft, texture: 0 }
        };
        tiles.push(tile);
        k = k + 1;
    }
    RenderPlan { layout, span, tiles, gated: true }
}

/// Plans one picture mixed from several textures of one size: lays the grid over
/// the canvas and draws, for every cell in turn, one texture by weight. Every
/// tile is upright. Which textures come out is up to the generator; each has a
/// weight that is not zero. The picture is kept without the corner test.
pub fn draw_random_tiles(
    randomizer: &mut RandomHelper,
    scale_factor: u32,
    texture_side: u32,
    canvas_width: u32,
    canvas_height: u32,
) -> (plan: RenderPlan)
    requires
        old(randomizer).well_formed(),
        texture_side > 0,
        scale_factor > 0,
        grid_fits(canvas_width as int, canvas_height as int, texture_side as int, scale_factor as int),
    ensures
        final(randomizer).well_formed(),
        final(randomizer).weights() == old(randomizer).weights(),
        plan.covers_grid(
            canvas_width as int,
            canvas_height as int,
            texture_side as int,
            scale_factor as int,
        ),
        !plan.gated,
        plan.all_drawn_from(old(randomizer).weights()),
{
    let layout: TileLayout = compute_layout(canvas_width, canvas_height, texture_side, scale_factor);
    proof {
        lemma_span_fits(texture_side, scale_factor);
    }
    let span: u64 = texture_side as u64 * scale_factor as u64;
    let total: usize = (layout.horizontal_count * layout.vertical_count) as usize;
    let mut tiles: Vec<TilePlacement> = Vec::new();
    let mut k: usize = 0;
    while k < total
        invariant
            0 < span == tile_span(texture_side as int, scale_factor as int),
            layout.is_layout_of(
                canvas_width as int,
                canvas_height as int,
                texture_side as int,
                scale_factor as int,
            ),
            total == layout.horizontal_count * layout.vertical_count,
            k <= total,
            tiles@.len() == k,
            randomizer.well_formed(),
            randomizer.weights() == old(randomizer).weights(),
            forall|j: int|
                0 <= j < k ==> (#[trigger] tiles@[j]).fills_cell(
                    j % (layout.horizontal_count as int),
                    j / (layout.horizontal_count as int),
                    span as int,
                ),
            forall|j: int|
                0 <= j < k ==> (#[trigger] tiles@[j]).is_upright() && tiles@[j].texture
                    < randomizer.weights().len() && randomizer.weights()[tiles@[j].texture as int] > 0,
        decreases total - k,
    {
        let (_column, _row, x, y) = cell_corner(
            k,
            &layout,
            span,
            Ghost(canvas_width as int),
            Ghost(canvas_height as int),
        );
        let texture: usize = randomizer.next_index();
        tiles.push(TilePlacement { x, y, rotation: 0, pivot: Pivot::TopLeft, texture });
        k = k + 1;
    }
    RenderPlan { layout, span, tiles, gated: false }
}

/// The span of a tile fits 64 bits and is positive for a positive side and scale.
proof fn lemma_span_fits(tile_side: u32, scale_factor: u32)
    requires
        tile_side > 0,
        scale_factor > 0,
    ensures
        0 < tile_span(tile_side as int, scale_factor as int) <= u64::MAX,
{
    assert(0 < tile_side * scale_factor <= u64::MAX) by (nonlinear_arith)
        requires
            0 < tile_side <= u32::MAX,
            0 < scale_factor <= u32::MAX,
    ;
}

} // verus!
