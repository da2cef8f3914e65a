//! Addressing of the accumulation grid, and the levels and the layout of
//! the exported bytes.
//!
//! The grid is stored row by row. A line is rasterised along its major
//! axis: for a shallow line the major axis runs along the columns, for a
//! steep line along the rows. What a line adds to a place along its major
//! axis is shared between two pixels side by side across it. A pixel that
//! falls outside the buffer has no slot, and what would have been added
//! to it is lost.
//!
//! For export each colour channel of each pixel is cut down to one of 256
//! levels, and the levels are laid out pixel by pixel.

use crate::key::{
    floor,
    floor_of,
    is_nan,
    lemma_whole_part_within,
    not_a_number,
    signed_magnitude,
    whole_part,
};
use vstd::arithmetic::power2::pow2;
use vstd::prelude::*;

verus! {

/// The brightest level of a colour channel.
pub const BRIGHTEST: u8 = 255;

/// The level of a colour channel whose intensity has the binary64 bit
/// pattern `bits`: the whole part of the intensity, held between zero
/// and the brightest level. An intensity that is not a number gives the
/// brightest level.
pub open spec fn level_of(bits: u64) -> u8 {
    if not_a_number(bits) {
        BRIGHTEST
    } else if whole_part(bits) >= BRIGHTEST {
        BRIGHTEST
    } else if whole_part(bits) < 0 {
        0
    } else {
        whole_part(bits) as u8
    }
}

/// The position in a row-major buffer of rows `width` long that a pixel
/// addressed by its major and minor coordinate stands for.
pub open spec fn flat_index(width: int, major: int, minor: int, steep: bool) -> int {
    if steep {
        major * width + minor
    } else {
        major + minor * width
    }
}

/// The slot of a pixel in a grid of `width` by `height`, if it has one.
pub open spec fn slot_of(width: int, height: int, major: int, minor: int, steep: bool) -> Option<
    usize,
> {
    let flat = flat_index(width, major, minor, steep);
    if 0 <= flat < width * height {
        Some(flat as usize)
    } else {
        None
    }
}

/// The bytes of a sequence of colour levels: red, green, blue of the first
/// pixel, then of the second, and so on.
pub open spec fn interleaved(levels: Seq<(u8, u8, u8)>) -> Seq<u8> {
    Seq::new(
        3 * levels.len(),
        |i: int|
            if i % 3 == 0 {
                levels[i / 3].0
            } else if i % 3 == 1 {
                levels[i / 3].1
            } else {
                levels[i / 3].2
            },
    )
}

/// The dimensions of an accumulation grid.
#[derive(Clone, Copy, Debug)]
pub struct Canvas {
    width: usize,
    height: usize,
}

impl Canvas {
    /// Whether a grid of these dimensions can be stored and exported.
    pub open spec fn fits(width: usize, height: usize) -> bool {
        3 * (width * height) <= usize::MAX
    }

    #[verifier::type_invariant]
    spec fn well_formed(self) -> bool {
        Self::fits(self.width, self.height)
    }

    /// The number of columns.
    pub closed spec fn spec_width(&self) -> usize {
        self.width
    }

    /// The number of rows.
    pub closed spec fn spec_height(&self) -> usize {
        self.height
    }

    /// A grid of `width` columns and `height` rows, unless three bytes for
    /// each of its pixels would be more than can be addressed.
    pub fn new(width: usize, height: usize) -> (c: Option<Canvas>)
        ensures
            c is Some <==> Self::fits(width, height),
            c matches Some(g) ==> g.spec_width() == width && g.spec_height() == height,
    {
        match width.checked_mul(height) {
            None => None,
            Some(pixels) => match pixels.checked_mul(3) {
                None => None,
                Some(_) => Some(Canvas { width, height }),
            },
        }
    }

    /// The number of columns.
    #[verifier::when_used_as_spec(spec_width)]
    pub fn width(&self) -> (w: usize)
        ensures
            w == self.spec_width(),
    {
        self.width
    }

    /// The number of rows.
    #[verifier::when_used_as_spec(spec_height)]
    pub fn height(&self) -> (h: usize)
        ensures
            h == self.spec_height(),
    {
        self.height
    }

    /// The number of pixels.
    pub fn pixels(&self) -> (n: usize)
        ensures
            n == self.width() * self.height(),
    {
        proof {
            use_type_invariant(self);
        }
        self.width * self.height
    }

    /// The number of bytes of the exported image.
    pub fn rgb8_len(&self) -> (n: usize)
        ensures
            n == self.width() * self.height() * 3,
    {
        proof {
            use_type_invariant(self);
        }
        self.width * self.height * 3
    }

    /// The slots of the two pixels that share what a line adds at `major`
    /// along its major axis: the pixel at `minor` across it, and the next
    /// one across.
    pub fn pair(&self, major: i64, minor: i64, steep: bool) -> (s: (Option<usize>, Option<usize>))
        ensures
            s.0 == slot_of(
                self.width() as int,
                self.height() as int,
                major as int,
                minor as int,
                steep,
            ),
            s.1 == slot_of(
                self.width() as int,
                self.height() as int,
                major as int,
                minor + 1,
                steep,
            ),
    {
        (self.locate(major, minor as i128, steep), self.locate(major, minor as i128 + 1, steep))
    }

    /// The slot of the pixel at `major` along the major axis of a line and
    /// at `minor` across it, or `None` if the pixel is outside the buffer.
    pub fn slot(&self, major: i64, minor: i64, steep: bool) -> (s: Option<usize>)
        ensures
            s == slot_of(self.width() as int, self.height() as int, major as int, minor as int, steep),
    {
        self.locate(major, minor as i128, steep)
    }

    fn locate(&self, major: i64, minor: i128, steep: bool) -> (s: Option<usize>)
        requires
            -0x8000_0000_0000_0000 <= minor <= 0x8000_0000_0000_0000,
        ensures
            s == slot_of(self.width() as int, self.height() as int, major as int, minor as int, steep),
    {
        proof {
            use_type_invariant(self);
        }
        let pixels = self.width * self.height;
        if pixels == 0 {
            return None;
        }
        assert(self.width <= pixels) by (nonlinear_arith)
            requires
                pixels == self.width * self.height,
                pixels != 0,
        ;
        assert(pixels <= 0x7fff_ffff_ffff_ffff);
        let w = self.width as i128;
        let a = major as i128;
        let b = minor;
        assert(-0x4000_0000_0000_0000_0000_0000_0000_0000 <= a * w
            <= 0x4000_0000_0000_0000_0000_0000_0000_0000) by (nonlinear_arith)
            requires
                -0x8000_0000_0000_0000 <= a <= 0x8000_0000_0000_0000,
                0 <= w <= 0x8000_0000_0000_0000,
        ;
        assert(-0x4000_0000_0000_0000_0000_0000_0000_0000 <= b * w
            <= 0x4000_0000_0000_0000_0000_0000_0000_0000) by (nonlinear_arith)
            requires
                -0x8000_0000_0000_0000 <= b <= 0x8000_0000_0000_0000,
                0 <= w <= 0x8000_0000_0000_0000,
        ;
        let flat: i128 = if steep {
            a * w + b
        } else {
            a + b * w
        };
        if 0 <= flat && flat < pixels as i128 {
            Some(flat as usize)
        } else {
            None
        }
    }
}

/// Turns an intensity into the level of a colour channel: the intensity
/// is held between zero and the brightest level and then cut down to a
/// whole number.
pub fn level(bits: u64) -> (r: u8)
    ensures
        r == level_of(bits),
{
    if is_nan(bits) {
        return BRIGHTEST;
    }
    let whole = floor(bits);
    if whole >= 255 {
        BRIGHTEST
    } else if whole < 0 {
        0
    } else {
        whole as u8
    }
}

/// Lays the colour levels of the pixels out as bytes, three for each pixel
/// in the order red, green, blue, the pixels in the order given.
pub fn pack_rgb8(levels: &Vec<(u8, u8, u8)>) -> (bytes: Vec<u8>)
    ensures
        bytes@ == interleaved(levels@),
{
    let mut bytes: Vec<u8> = Vec::new();
    let mut i: usize = 0;
    while i < levels.len()
        invariant
            i <= levels.len(),
            bytes@ == interleaved(levels@.take(i as int)),
        decreases levels.len() - i,
    {
        let (r, g, b) = levels[i];
        bytes.push(r);
        bytes.push(g);
        bytes.push(b);
        i = i + 1;
        assert(bytes@ =~= interleaved(levels@.take(i as int)));
    }
    assert(levels@.take(i as int) =~= levels@);
    bytes
}

/// Every pixel inside the grid has a slot, the same for a shallow and for a
/// steep line: the pixels of a row stand side by side, and the rows follow
/// one another.
pub proof fn lemma_slot_inside(width: int, height: int, column: int, row: int)
    requires
        0 <= column < width,
        0 <= row < height,
        width * height <= usize::MAX,
    ensures
        slot_of(width, height, column, row, false) == Some((column + row * width) as usize),
        slot_of(width, height, row, column, true) == Some((column + row * width) as usize),
        column + row * width < width * height,
{
    assert(0 <= row * width && row * width + width <= height * width) by (nonlinear_arith)
        requires
            0 <= row < height,
            0 < width,
    ;
    assert(height * width == width * height) by (nonlinear_arith);
}

/// Two pixels inside the grid share a slot only if they are the same pixel.
pub proof fn lemma_slot_injective(
    width: int,
    height: int,
    column1: int,
    row1: int,
    column2: int,
    row2: int,
)
    requires
        0 <= column1 < width,
        0 <= row1 < height,
        0 <= column2 < width,
        0 <= row2 < height,
        width * height <= usize::MAX,
        slot_of(width, height, column1, row1, false) == slot_of(
            width,
            height,
            column2,
            row2,
            false,
        ),
    ensures
        column1 == column2,
        row1 == row2,
{
    lemma_slot_inside(width, height, column1, row1);
    lemma_slot_inside(width, height, column2, row2);
    assert(column1 + row1 * width == column2 + row2 * width);
    assert(row1 == row2) by (nonlinear_arith)
        requires
            0 <= column1 < width,
            0 <= column2 < width,
            column1 + row1 * width == column2 + row2 * width,
    ;
}

/// A pixel has a slot exactly when its flat index lies within the buffer,
/// whatever its coordinates: a column beyond the last runs on into the
/// next row.
pub proof fn lemma_slot_bounds(width: int, height: int, major: int, minor: int, steep: bool)
    requires
        0 <= width,
        0 <= height,
        width * height <= usize::MAX,
    ensures
        slot_of(width, height, major, minor, steep) matches Some(s) ==> s < width * height && s
            == flat_index(width, major, minor, steep),
        slot_of(width, height, major, minor, steep) is None <==> !(0 <= flat_index(
            width,
            major,
            minor,
            steep,
        ) < width * height),
{
}

/// A place inside the grid falls into a pixel of the grid: where the
/// coordinates of a place lie from zero up to, but not including, the
/// width and the height, the pixel that they are cut down to has a slot.
pub proof fn lemma_place_inside(width: int, height: int, x: u64, y: u64)
    requires
        0 <= signed_magnitude(x) < width * pow2(1074),
        0 <= signed_magnitude(y) < height * pow2(1074),
        !not_a_number(x),
        !not_a_number(y),
        3 * (width * height) <= usize::MAX,
    ensures
        0 <= floor_of(x) < width,
        0 <= floor_of(y) < height,
        slot_of(width, height, floor_of(x) as int, floor_of(y) as int, false) is Some,
        slot_of(width, height, floor_of(y) as int, floor_of(x) as int, true) is Some,
{
    lemma_whole_part_within(x, width);
    lemma_whole_part_within(y, height);
    assert(width <= width * height && height <= width * height) by (nonlinear_arith)
        requires
            width >= 1,
            height >= 1,
    ;
    assert(floor_of(x) == whole_part(x));
    assert(floor_of(y) == whole_part(y));
    lemma_slot_inside(width, height, whole_part(x), whole_part(y));
}

/// The export of a grid of `width` by `height` pixels is `width * height
/// * 3` bytes long, whatever was drawn.
pub proof fn lemma_export_len(width: nat, height: nat, levels: Seq<(u8, u8, u8)>)
    requires
        levels.len() == width * height,
    ensures
        interleaved(levels).len() == width * height * 3,
{
}

/// The exported bytes are three for each pixel.
pub proof fn lemma_interleaved_len(levels: Seq<(u8, u8, u8)>)
    ensures
        interleaved(levels).len() == 3 * levels.len(),
        forall|p: int|
            0 <= p < levels.len() ==> interleaved(levels)[3 * p] == (#[trigger] levels[p]).0
                && interleaved(levels)[3 * p + 1] == levels[p].1 && interleaved(levels)[3 * p
                + 2] == levels[p].2,
{
}

} // verus!
