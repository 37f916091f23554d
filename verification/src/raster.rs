//! The square image of an icon, and how a sprite is painted into it.
//!
//! The pixels live in an `image::RgbImage`. Verus cannot look into that type,
//! so this module names what one holds and states, unproved, what the four
//! calls made into the `image` crate do to it. Everything else here is proved
//! from those statements.

use vstd::prelude::*;
use crate::color::Color;
use crate::sprite::grid_cell;

verus! {

/// A grid of colours, backed by an `image::RgbImage`.
///
/// The buffer type of the `image` crate is generic over a pixel type that is
/// bound by a trait of that crate, and Verus takes no declaration of a type
/// with such a bound. The raster therefore keeps the buffer in a private
/// field and is opaque to Verus as a whole: all that is known of it is what
/// `raster_dimensions` and `raster_pixels` name.
#[verifier::external_body]
pub struct Raster {
    image: image::RgbImage,
}

/// The width and the height of a raster, as `image::ImageBuffer::dimensions`
/// reports them.
pub uninterp spec fn raster_dimensions(raster: Raster) -> (u32, u32);

/// The colours of a raster: the pixel in column `x` of row `y`, both counted
/// from the top left corner, is found under `(x, y)`.
pub uninterp spec fn raster_pixels(raster: Raster) -> Map<(int, int), Color>;

/// Calls `image::ImageBuffer::from_pixel`, which allocates three bytes per
/// pixel and panics if that is more than a vector can hold. The new buffer has
/// the dimensions asked for, and every pixel of it is a copy of `color`.
#[verifier::external_body]
fn filled(width: u32, height: u32, color: Color) -> (raster: Raster)
    requires
        3 * width * height <= isize::MAX,
    ensures
        raster_dimensions(raster) == (width, height),
        raster_pixels(raster) == Map::new(
            |p: (int, int)| 0 <= p.0 < width && 0 <= p.1 < height,
            |p: (int, int)| color,
        ),
{
    let pixel = image::Rgb([color.r, color.g, color.b]);
    Raster { image: image::ImageBuffer::from_pixel(width, height, pixel) }
}

/// Calls `image::ImageBuffer::put_pixel`, which panics outside the buffer.
/// Inside it the call overwrites the pixel at `(x, y)` and leaves the
/// dimensions and every other pixel alone.
#[verifier::external_body]
fn put(raster: &mut Raster, x: u32, y: u32, color: Color)
    requires
        x < raster_dimensions(*old(raster)).0,
        y < raster_dimensions(*old(raster)).1,
    ensures
        raster_dimensions(*final(raster)) == raster_dimensions(*old(raster)),
        raster_pixels(*final(raster)) == raster_pixels(*old(raster)).insert(
            (x as int, y as int),
            color,
        ),
{
    raster.image.put_pixel(x, y, image::Rgb([color.r, color.g, color.b]));
}

/// Calls `image::ImageBuffer::dimensions`, which hands back the width and the
/// height that the buffer was made with.
#[verifier::external_body]
fn dimensions(raster: &Raster) -> (d: (u32, u32))
    ensures
        d == raster_dimensions(*raster),
{
    raster.image.dimensions()
}

/// Calls `image::ImageBuffer::get_pixel`, which panics outside the buffer and
/// inside it hands back the pixel at `(x, y)`.
#[verifier::external_body]
fn pixel_at(raster: &Raster, x: u32, y: u32) -> (color: Color)
    requires
        x < raster_dimensions(*raster).0,
        y < raster_dimensions(*raster).1,
    ensures
        color == raster_pixels(*raster)[(x as int, y as int)],
{
    let pixel = raster.image.get_pixel(x, y);
    Color { r: pixel.0[0], g: pixel.0[1], b: pixel.0[2] }
}

impl Raster {
    /// The number of pixels in a row.
    pub open spec fn spec_width(&self) -> u32 {
        raster_dimensions(*self).0
    }

    /// The number of rows.
    pub open spec fn spec_height(&self) -> u32 {
        raster_dimensions(*self).1
    }

    /// Whether `(x, y)` is a pixel of this raster.
    pub open spec fn contains(&self, x: int, y: int) -> bool {
        0 <= x < self.spec_width() && 0 <= y < self.spec_height()
    }

    /// The colour at `(x, y)`.
    pub open spec fn at(&self, x: int, y: int) -> Color
        recommends
            self.contains(x, y),
    {
        raster_pixels(*self)[(x, y)]
    }

    /// The number of pixels in a row.
    #[verifier::when_used_as_spec(spec_width)]
    pub fn width(&self) -> (w: u32)
        ensures
            w == self.spec_width(),
    {
        dimensions(self).0
    }

    /// The number of rows.
    #[verifier::when_used_as_spec(spec_height)]
    pub fn height(&self) -> (h: u32)
        ensures
            h == self.spec_height(),
    {
        dimensions(self).1
    }

    /// The colour at `(x, y)`, or `None` where the raster has no such pixel.
    pub fn get_pixel(&self, x: u32, y: u32) -> (color: Option<Color>)
        ensures
            color == if self.contains(x as int, y as int) {
                Some(self.at(x as int, y as int))
            } else {
                None
            },
    {
        let (width, height) = dimensions(self);
        if x < width && y < height {
            Some(pixel_at(self, x, y))
        } else {
            None
        }
    }

    /// Paints the rectangle of the columns from `x0` up to, not including,
    /// `x1` and the rows from `y0` up to, not including, `y1`. Whatever part
    /// of it lies outside the raster is cut off.
    pub fn rect(&mut self, x0: u32, y0: u32, x1: u32, y1: u32, color: Color)
        ensures
            final(self).width() == old(self).width(),
            final(self).height() == old(self).height(),
            forall|x: int, y: int|
                old(self).contains(x, y) ==> #[trigger] final(self).at(x, y) == if x0 <= x < x1
                    && y0 <= y < y1 {
                    color
                } else {
                    old(self).at(x, y)
                },
    {
        let (width, height) = dimensions(self);
        let x_end: u32 = if x1 < width {
            x1
        } else {
            width
        };
        let y_end: u32 = if y1 < height {
            y1
        } else {
            height
        };
        let mut x: u32 = x0;
        while x < x_end
            invariant
                x0 <= x,
                x <= x_end || x == x0,
                x_end == if x1 < width { x1 } else { width },
                y_end == if y1 < height { y1 } else { height },
                raster_dimensions(*self) == (width, height),
                raster_dimensions(*old(self)) == (width, height),
                forall|i: int, j: int|
                    old(self).contains(i, j) ==> #[trigger] self.at(i, j) == if x0 <= i < x
                        && y0 <= j < y1 {
                        color
                    } else {
                        old(self).at(i, j)
                    },
            decreases x_end - x,
        {
            let mut y: u32 = y0;
            while y < y_end
                invariant
                    x0 <= x < x_end,
                    y0 <= y,
                    y <= y_end || y == y0,
                    x_end == if x1 < width { x1 } else { width },
                    y_end == if y1 < height { y1 } else { height },
                    raster_dimensions(*self) == (width, height),
                    raster_dimensions(*old(self)) == (width, height),
                    forall|i: int, j: int|
                        old(self).contains(i, j) ==> #[trigger] self.at(i, j) == if (x0 <= i < x
                            && y0 <= j < y1) || (i == x && y0 <= j < y) {
                            color
                        } else {
                            old(self).at(i, j)
                        },
                decreases y_end - y,
            {
                let ghost before = *self;
                put(self, x, y, color);
                assert forall|i: int, j: int| old(self).contains(i, j) implies #[trigger] self.at(
                    i,
                    j,
                ) == if (x0 <= i < x && y0 <= j < y1) || (i == x && y0 <= j < y + 1) {
                    color
                } else {
                    old(self).at(i, j)
                } by {
                    assert(self.at(i, j) == if i == x && j == y {
                        color
                    } else {
                        before.at(i, j)
                    });
                }
                y = y + 1;
            }
            x = x + 1;
        }
    }
}

/// The edge of one cell of the sprite, in pixels.
pub const PIXEL_SIZE: u32 = 70;

/// The number of cells in a row and in a column of the sprite.
pub const SPRITE_SIZE: u32 = 5;

/// The border left free around the sprite, in pixels: half a cell.
pub const MARGIN: u32 = 35;

/// Whether the pixel at `(x, y)` belongs to a painted cell of `grid`.
///
/// The sprite is laid out at 70 pixels per cell behind a margin of 35, so it
/// covers the pixels from 35 up to 385 in both directions, whatever the size
/// of the image: a smaller image cuts it off, a larger one leaves a wider
/// border to the right and below.
pub open spec fn painted(grid: Seq<bool>, x: int, y: int) -> bool {
    &&& MARGIN <= x < MARGIN + SPRITE_SIZE * PIXEL_SIZE
    &&& MARGIN <= y < MARGIN + SPRITE_SIZE * PIXEL_SIZE
    &&& grid_cell(grid, (x - MARGIN) / (PIXEL_SIZE as int), (y - MARGIN) / (PIXEL_SIZE as int))
}

/// The colour of the pixel at `(x, y)` in the icon of `grid`.
pub open spec fn icon_pixel(
    grid: Seq<bool>,
    background: Color,
    foreground: Color,
    x: int,
    y: int,
) -> Color {
    if painted(grid, x, y) {
        foreground
    } else {
        background
    }
}

/// The square of the cell in column `col` of row `row` starts `MARGIN` pixels
/// in from the cell's corner and is one cell wide and high; the pixels in it
/// are painted exactly if the cell is.
pub proof fn lemma_painted_square(grid: Seq<bool>, col: int, row: int, x: int, y: int)
    requires
        0 <= col < SPRITE_SIZE,
        0 <= row < SPRITE_SIZE,
        col * PIXEL_SIZE + MARGIN <= x < col * PIXEL_SIZE + PIXEL_SIZE + MARGIN,
        row * PIXEL_SIZE + MARGIN <= y < row * PIXEL_SIZE + PIXEL_SIZE + MARGIN,
    ensures
        painted(grid, x, y) == grid_cell(grid, col, row),
{
    assert((x - 35) / 70 == col);
    assert((y - 35) / 70 == row);
}

/// Whether `raster` is the icon of `grid` at `size` by `size` pixels:
/// `foreground` on the squares of the painted cells, `background` everywhere
/// else.
pub open spec fn is_icon(
    raster: Raster,
    grid: Seq<bool>,
    background: Color,
    foreground: Color,
    size: u32,
) -> bool {
    &&& raster.width() == size
    &&& raster.height() == size
    &&& forall|x: int, y: int|
        raster.contains(x, y) ==> #[trigger] raster.at(x, y) == icon_pixel(
            grid,
            background,
            foreground,
            x,
            y,
        )
}

/// A grid, two colours and a size leave no choice: two rasters that are both
/// the icon of the same four agree in their dimensions and in every pixel.
pub proof fn lemma_icon_unique(
    first: Raster,
    second: Raster,
    grid: Seq<bool>,
    background: Color,
    foreground: Color,
    size: u32,
)
    requires
        is_icon(first, grid, background, foreground, size),
        is_icon(second, grid, background, foreground, size),
    ensures
        first.width() == second.width(),
        first.height() == second.height(),
        forall|x: int, y: int| first.contains(x, y) ==> first.at(x, y) == #[trigger] second.at(x, y),
{
    assert forall|x: int, y: int| first.contains(x, y) implies first.at(x, y)
        == #[trigger] second.at(x, y) by {
        assert(second.contains(x, y));
        assert(first.at(x, y) == icon_pixel(grid, background, foreground, x, y));
    }
}

/// No pixel is painted outside the 350 by 350 pixels behind the margin, so
/// an image of at least 385 pixels a side shows the whole sprite.
pub proof fn lemma_painted_within(grid: Seq<bool>, x: int, y: int)
    requires
        painted(grid, x, y),
    ensures
        35 <= x < 385,
        35 <= y < 385,
{
}

/// Paints the icon of `grid` into a new square image of `size` by `size`
/// pixels. The sprite is not scaled: an image under 385 pixels a side cuts it
/// off.
pub fn rasterize(grid: &[bool; 25], background: Color, foreground: Color, size: u32) -> (raster:
    Raster)
    requires
        3 * size * size <= isize::MAX,
    ensures
        is_icon(raster, grid@, background, foreground, size),
{
    let mut raster = filled(size, size, background);
    let mut row: u32 = 0;
    while row < SPRITE_SIZE
        invariant
            row <= SPRITE_SIZE,
            raster_dimensions(raster) == (size, size),
            forall|x: int, y: int|
                raster.contains(x, y) ==> #[trigger] raster.at(x, y) == if painted(grid@, x, y)
                    && (y - 35) / 70 < row {
                    foreground
                } else {
                    background
                },
        decreases SPRITE_SIZE - row,
    {
        let mut col: u32 = 0;
        while col < SPRITE_SIZE
            invariant
                row < SPRITE_SIZE,
                col <= SPRITE_SIZE,
                raster_dimensions(raster) == (size, size),
                forall|x: int, y: int|
                    raster.contains(x, y) ==> #[trigger] raster.at(x, y) == if painted(grid@, x, y)
                        && ((y - 35) / 70 < row || ((y - 35) / 70 == row && (x - 35) / 70 < col)) {
                        foreground
                    } else {
                        background
                    },
            decreases SPRITE_SIZE - col,
        {
            let ghost before = raster;
            if grid[(row * SPRITE_SIZE + col) as usize] {
                let x: u32 = col * PIXEL_SIZE;
                let y: u32 = row * PIXEL_SIZE;
                raster.rect(
                    x + MARGIN,
                    y + MARGIN,
                    x + PIXEL_SIZE + MARGIN,
                    y + PIXEL_SIZE + MARGIN,
                    foreground,
                );
            }
            assert forall|x: int, y: int| raster.contains(x, y) implies #[trigger] raster.at(x, y)
                == if painted(grid@, x, y) && ((y - 35) / 70 < row || ((y - 35) / 70 == row
                && (x - 35) / 70 < col + 1)) {
                foreground
            } else {
                background
            } by {
                assert(before.contains(x, y));
                assert(before.at(x, y) == if painted(grid@, x, y) && ((y - 35) / 70 < row
                    || ((y - 35) / 70 == row && (x - 35) / 70 < col)) {
                    foreground
                } else {
                    background
                });
                if col * 70 + 35 <= x < col * 70 + 105 && row * 70 + 35 <= y < row * 70 + 105 {
                    lemma_painted_square(grid@, col as int, row as int, x, y);
                } else {
                    assert(raster.at(x, y) == before.at(x, y));
                    assert(!(35 <= x && 35 <= y && (x - 35) / 70 == col && (y - 35) / 70 == row));
                }
            }
            col = col + 1;
        }
        row = row + 1;
    }
    raster
}

} // verus!
