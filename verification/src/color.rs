//! Which bits of a source decide the colour of its icon.
//!
//! The hue, and in GitHub mode the saturation and luminance too, are read off
//! fixed positions near the end of the source. This module stops at those
//! integers: turning them into a colour is arithmetic on fractions and is left
//! to the caller.

use vstd::prelude::*;

verus! {

/// A colour with one byte for each of red, green and blue.
#[derive(Clone, Copy, Debug, PartialEq, Eq, Structural)]
pub struct Color {
    pub r: u8,
    pub g: u8,
    pub b: u8,
}

/// The fixed saturation and brightness of Identicon.js, each a fraction
/// between zero and one, held as the bit pattern of an IEEE 754 binary32
/// number. The library hands both on untouched.
#[derive(Clone, Copy, Debug, PartialEq, Eq, Structural)]
pub struct IdenticonJSOptions {
    pub saturation_bits: u32,
    pub brightness_bits: u32,
}

/// The binary32 pattern of seven tenths.
pub const DEFAULT_SATURATION_BITS: u32 = 0x3f33_3333;

/// The binary32 pattern of one half.
pub const DEFAULT_BRIGHTNESS_BITS: u32 = 0x3f00_0000;

impl Default for IdenticonJSOptions {
    /// Saturation 0.7 and brightness 0.5, as Identicon.js has them.
    fn default() -> (options: Self)
        ensures
            options.saturation_bits == DEFAULT_SATURATION_BITS,
            options.brightness_bits == DEFAULT_BRIGHTNESS_BITS,
    {
        IdenticonJSOptions {
            saturation_bits: DEFAULT_SATURATION_BITS,
            brightness_bits: DEFAULT_BRIGHTNESS_BITS,
        }
    }
}

/// Whose colours an icon imitates.
#[derive(Clone, Copy, Debug, PartialEq, Eq, Structural)]
pub enum Mode {
    /// The colours of GitHub's icons.
    GitHub,
    /// The colours of Identicon.js: only the hue comes from the source.
    IdenticonJS(IdenticonJSOptions),
}

impl Mode {
    /// How many bytes a source needs before its colour can be read.
    pub open spec fn spec_min_source_len(&self) -> usize {
        match self {
            Mode::GitHub => 16,
            Mode::IdenticonJS(_) => 4,
        }
    }

    /// How many bytes a source needs before its colour can be read.
    #[verifier::when_used_as_spec(spec_min_source_len)]
    pub fn min_source_len(&self) -> (n: usize)
        ensures
            n == self.spec_min_source_len(),
    {
        match self {
            Mode::GitHub => 16,
            Mode::IdenticonJS(_) => 4,
        }
    }
}

/// The integers that a source gives for its colour.
#[derive(Clone, Copy, Debug, PartialEq, Eq, Structural)]
pub enum ColorBits {
    /// `hue` has 12 bits and stands for an angle: 4095 is the full turn.
    /// `saturation` and `luminance` each take up to 20 points off a base of
    /// 65 and 75 percent, 255 standing for all 20.
    GitHub { hue: u32, saturation: u8, luminance: u8 },
    /// `hue` has 28 bits and stands for an angle: `0x0fff_ffff` is the full
    /// turn. Saturation and brightness are those of the options.
    IdenticonJS { hue: u32, options: IdenticonJSOptions },
}

/// The 12 bits of hue in GitHub mode: the low half of byte 12, then byte 13.
pub open spec fn github_hue(source: Seq<u8>) -> int {
    (source[12] % 16) * 256 + source[13]
}

/// The 28 bits of hue in Identicon.js mode: the low half of the fourth byte
/// from the end, then the last three bytes, the most significant first.
pub open spec fn identicon_js_hue(source: Seq<u8>) -> int {
    let n = source.len() as int;
    (((source[n - 4] % 16) * 256 + source[n - 3]) * 256 + source[n - 2]) * 256 + source[n - 1]
}

/// What `source` gives for its colour in `mode`. It is meant for sources of
/// at least `mode.min_source_len()` bytes.
pub open spec fn color_bits(source: Seq<u8>, mode: Mode) -> ColorBits
    recommends
        source.len() >= mode.min_source_len(),
{
    match mode {
        Mode::GitHub => ColorBits::GitHub {
            hue: github_hue(source) as u32,
            saturation: source[14],
            luminance: source[15],
        },
        Mode::IdenticonJS(options) => ColorBits::IdenticonJS {
            hue: identicon_js_hue(source) as u32,
            options,
        },
    }
}

/// The hue never leaves its 12 or 28 bits, so it stands for an angle within
/// the full turn, and `color_bits` holds it whole.
pub proof fn lemma_hue_in_range(source: Seq<u8>, mode: Mode)
    requires
        source.len() >= mode.min_source_len(),
    ensures
        match color_bits(source, mode) {
            ColorBits::GitHub { hue, .. } => hue == github_hue(source) && hue <= 4095,
            ColorBits::IdenticonJS { hue, .. } => hue == identicon_js_hue(source) && hue
                <= 0x0fff_ffff,
        },
{
}

/// In Identicon.js mode only the last four bytes of a source count: two
/// sources that end in the same four bytes give the same integers under the
/// same options, whatever their lengths.
pub proof fn lemma_identicon_js_reads_tail(a: Seq<u8>, b: Seq<u8>, options: IdenticonJSOptions)
    requires
        a.len() >= 4,
        b.len() >= 4,
        a.subrange(a.len() - 4, a.len() as int) == b.subrange(b.len() - 4, b.len() as int),
    ensures
        color_bits(a, Mode::IdenticonJS(options)) == color_bits(b, Mode::IdenticonJS(options)),
{
    let ta = a.subrange(a.len() - 4, a.len() as int);
    let tb = b.subrange(b.len() - 4, b.len() as int);
    assert(ta[0] == a[a.len() - 4] && tb[0] == b[b.len() - 4]);
    assert(ta[1] == a[a.len() - 3] && tb[1] == b[b.len() - 3]);
    assert(ta[2] == a[a.len() - 2] && tb[2] == b[b.len() - 2]);
    assert(ta[3] == a[a.len() - 1] && tb[3] == b[b.len() - 1]);
}

/// Reads the colour bits of `source` in `mode`.
pub fn read_color_bits(source: &[u8], mode: Mode) -> (bits: ColorBits)
    requires
        source@.len() >= mode.min_source_len(),
    ensures
        bits == color_bits(source@, mode),
        bits matches ColorBits::GitHub { hue, .. } ==> hue <= 4095,
        bits matches ColorBits::IdenticonJS { hue, .. } ==> hue <= 0x0fff_ffff,
{
    proof {
        lemma_hue_in_range(source@, mode);
    }
    match mode {
        Mode::GitHub => {
            let b12: u8 = source[12];
            let b13: u8 = source[13];
            let h1: u16 = ((b12 as u16) & 0x0f) << 8;
            let h2: u16 = b13 as u16;
            let hue: u16 = h1 | h2;
            assert(hue == (b12 % 16) * 256 + b13) by (bit_vector)
                requires
                    hue == (((b12 as u16) & 0x0f) << 8) | (b13 as u16),
            ;
            ColorBits::GitHub { hue: hue as u32, saturation: source[14], luminance: source[15] }
        },
        Mode::IdenticonJS(options) => {
            let n: usize = source.len();
            let b0: u8 = source[n - 4];
            let b1: u8 = source[n - 3];
            let b2: u8 = source[n - 2];
            let b3: u8 = source[n - 1];
            let mut hue: u32 = (b0 as u32) & 0x0f;
            hue = hue << 8 | (b1 as u32);
            hue = hue << 8 | (b2 as u32);
            hue = hue << 8 | (b3 as u32);
            assert(hue == (((b0 % 16) * 256 + b1) * 256 + b2) * 256 + b3) by (bit_vector)
                requires
                    hue == ((((((b0 as u32) & 0x0f) << 8) | (b1 as u32)) << 8) | (b2 as u32)) << 8
                        | (b3 as u32),
            ;
            ColorBits::IdenticonJS { hue, options }
        },
    }
}

} // verus!
