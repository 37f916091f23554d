//! An icon in the making: a source, the size of the image and the mode that
//! picks the colour.

use vstd::prelude::*;
use crate::color::{color_bits, read_color_bits, Color, ColorBits, Mode};
use crate::raster::{is_icon, lemma_icon_unique, rasterize, Raster};
use crate::sprite::{mirrored, sprite};

verus! {

/// The edge of the image of a new icon, in pixels.
pub const DEFAULT_SIZE: u32 = 420;

/// The level of each channel of the background, a light grey.
pub const BACKGROUND_LEVEL: u8 = 240;

/// The colour behind the sprite.
pub open spec fn spec_background() -> Color {
    Color { r: BACKGROUND_LEVEL, g: BACKGROUND_LEVEL, b: BACKGROUND_LEVEL }
}

/// The colour behind the sprite.
#[verifier::when_used_as_spec(spec_background)]
pub fn background() -> (color: Color)
    ensures
        color == spec_background(),
{
    Color { r: BACKGROUND_LEVEL, g: BACKGROUND_LEVEL, b: BACKGROUND_LEVEL }
}

/// An icon in the making. It borrows its source and keeps nothing between
/// two queries: each one reads the source afresh.
pub struct Identicon<'a> {
    source: &'a [u8],
    size: u32,
    mode: Mode,
}

/// What an `Identicon` stands for.
pub struct IdenticonView {
    pub source: Seq<u8>,
    pub size: u32,
    pub mode: Mode,
}

impl<'a> View for Identicon<'a> {
    type V = IdenticonView;

    closed spec fn view(&self) -> IdenticonView {
        IdenticonView { source: self.source@, size: self.size, mode: self.mode }
    }
}

impl<'a> Identicon<'a> {
    /// The image, at three bytes per pixel, fits in memory.
    #[verifier::type_invariant]
    spec fn inv(self) -> bool {
        3 * self.size * self.size <= isize::MAX
    }

    /// An icon of `source` in GitHub mode and of the default size. The source
    /// is not looked at yet, so any length is taken.
    pub fn new(source: &'a [u8]) -> (icon: Self)
        ensures
            icon@.source == source@,
            icon@.size == DEFAULT_SIZE,
            icon@.mode == Mode::GitHub,
    {
        assert(3 * DEFAULT_SIZE * DEFAULT_SIZE == 529_200) by (nonlinear_arith);
        Identicon { source, size: DEFAULT_SIZE, mode: Mode::GitHub }
    }

    /// The same icon in another mode.
    pub fn mode(self, mode: Mode) -> (icon: Self)
        ensures
            icon@.source == self@.source,
            icon@.size == self@.size,
            icon@.mode == mode,
    {
        proof {
            use_type_invariant(&self);
        }
        Identicon { source: self.source, size: self.size, mode }
    }

    /// Whether the source is long enough for its colour to be read in the
    /// mode of this icon.
    pub open spec fn has_color(&self) -> bool {
        self@.source.len() >= self@.mode.min_source_len()
    }

    /// The integers that decide the foreground colour.
    pub fn color_bits(&self) -> (bits: ColorBits)
        requires
            self.has_color(),
        ensures
            bits == color_bits(self@.source, self@.mode),
    {
        read_color_bits(self.source, self.mode)
    }

    /// The integers that decide the foreground colour, or `None` where the
    /// source is too short for the mode.
    pub fn checked_color_bits(&self) -> (bits: Option<ColorBits>)
        ensures
            bits == if self.has_color() {
                Some(color_bits(self@.source, self@.mode))
            } else {
                None
            },
    {
        if self.source.len() >= self.mode.min_source_len() {
            Some(read_color_bits(self.source, self.mode))
        } else {
            None
        }
    }

    /// The sprite of the source, row by row. A source of any length has one.
    pub fn pixels(&self) -> (grid: [bool; 25])
        ensures
            grid@ == sprite(self@.source),
            mirrored(grid@),
    {
        crate::sprite::pixels(self.source)
    }

    /// Whether `raster` is the image of this icon with a sprite of
    /// `foreground`.
    pub open spec fn is_image(&self, raster: Raster, foreground: Color) -> bool {
        is_icon(raster, sprite(self@.source), background(), foreground, self@.size)
    }

    /// The image of the icon: the sprite of the source in `foreground` on the
    /// fixed background.
    pub fn image(&self, foreground: Color) -> (raster: Raster)
        ensures
            self.is_image(raster, foreground),
    {
        proof {
            use_type_invariant(self);
        }
        let grid = self.pixels();
        rasterize(&grid, background(), foreground, self.size)
    }
}

/// An icon is determined by what it is made of. Two icons of the same
/// source, size and mode read the same colour bits, and their images in the
/// same foreground agree in their dimensions and in every pixel.
pub proof fn lemma_image_determined(
    first: Identicon,
    second: Identicon,
    foreground: Color,
    first_image: Raster,
    second_image: Raster,
)
    requires
        first@ == second@,
        first.is_image(first_image, foreground),
        second.is_image(second_image, foreground),
    ensures
        color_bits(first@.source, first@.mode) == color_bits(second@.source, second@.mode),
        first_image.width() == second_image.width(),
        first_image.height() == second_image.height(),
        forall|x: int, y: int|
            first_image.contains(x, y) ==> first_image.at(x, y) == #[trigger] second_image.at(
                x,
                y,
            ),
{
    lemma_icon_unique(
        first_image,
        second_image,
        sprite(first@.source),
        background(),
        foreground,
        first@.size,
    );
}

} // verus!
