//! The monochrome display.

use vstd::prelude::*;

verus! {

/// Number of pixel columns.
pub const SCREEN_WIDTH: usize = 64;

/// Number of pixel rows.
pub const SCREEN_HEIGHT: usize = 32;

/// Number of pixels.
pub const SCREEN_SIZE: usize = 2048;

/// The pixel grid, row after row, and a flag that is raised by every write
/// and lowered only by whoever consumes the picture.
pub struct Screen {
    screen: [bool; 2048],
    pub updated: bool,
}

/// What a screen shows: the pixels, row after row, and the flag.
pub struct ScreenView {
    pub pixels: Seq<bool>,
    pub updated: bool,
}

impl View for Screen {
    type V = ScreenView;

    closed spec fn view(&self) -> ScreenView {
        ScreenView { pixels: self.screen@, updated: self.updated }
    }
}

/// Where the pixel in column `x` of row `y` stands in the row-major grid.
pub open spec fn pixel_index(x: int, y: int) -> int {
    y * SCREEN_WIDTH + x
}

/// An all-dark grid.
pub open spec fn blank() -> Seq<bool> {
    Seq::new(SCREEN_SIZE as nat, |k: int| false)
}

impl Screen {
    /// Whether the pixel in column `x` of row `y` is lit.
    pub open spec fn is_set(&self, x: int, y: int) -> bool {
        self@.pixels[pixel_index(x, y)]
    }

    /// The grid always holds `SCREEN_SIZE` pixels.
    pub proof fn lemma_len(&self)
        ensures
            self@.pixels.len() == SCREEN_SIZE,
    {
    }

    pub fn new() -> (r: Screen)
        ensures
            r@ == (ScreenView { pixels: blank(), updated: false }),
    {
        let r = Self { screen: [false;2048], updated: false };
        assert(r@.pixels =~= blank());
        r
    }

    /// Combines `pixel` into the grid by exclusive or: the pixel ends lit
    /// exactly if one of its old state and `pixel` is set.
    pub fn set_pixel(&mut self, x: usize, y: usize, pixel: bool)
        requires
            pixel_index(x as int, y as int) < SCREEN_SIZE,
        ensures
            final(self)@ == (ScreenView {
                pixels: old(self)@.pixels.update(
                    pixel_index(x as int, y as int),
                    old(self).is_set(x as int, y as int) != pixel,
                ),
                updated: true,
            }),
    {
        let index = y * SCREEN_WIDTH + x;
        let old_val = self.screen[index];
        self.screen[index] = (pixel && !old_val) || (!pixel && old_val);

        self.updated = true;
    }

    pub fn is_pixel_set(&self, x: usize, y: usize) -> (r: bool)
        requires
            pixel_index(x as int, y as int) < SCREEN_SIZE,
        ensures
            r == self.is_set(x as int, y as int),
    {
        self.screen[y * SCREEN_WIDTH + x]
    }

    /// Darkens every pixel and raises the flag.
    pub fn clear(&mut self)
        ensures
            final(self)@ == (ScreenView { pixels: blank(), updated: true }),
    {
        self.screen = [false;2048];
        self.updated = true;
        assert(self@.pixels =~= blank());
    }
}

impl Screen {
    /// Whether the picture changed since it was last consumed.
    pub fn is_updated(&self) -> (r: bool)
        ensures
            r == self@.updated,
    {
        self.updated
    }

    /// Lowers the flag: the picture as it stands has been consumed.
    pub fn mark_consumed(&mut self)
        ensures
            final(self)@ == (ScreenView { updated: false, ..old(self)@ }),
    {
        self.updated = false;
    }
}

/// A consumer of the picture, such as a texture that a window shows.
pub trait FrameBuffer {
    /// The pixels that the consumer holds, row after row. A consumer that is
    /// verified says here what it holds. One that is not leaves this as it
    /// is, and the contract of `update` is taken on trust for it.
    open spec fn shown(&self) -> Seq<bool> {
        arbitrary()
    }

    /// Takes over what `screen` shows: afterwards the consumer holds the
    /// pixels of `screen`.
    fn update(&mut self, screen: &Screen)
        ensures
            final(self).shown() == screen@.pixels,
    ;
}


/// The weight of the bit that a sprite row holds for column `col`, the
/// leftmost column being the most significant bit.
pub open spec fn bit_weight(col: int) -> int {
    if col == 0 {
        128
    } else if col == 1 {
        64
    } else if col == 2 {
        32
    } else if col == 3 {
        16
    } else if col == 4 {
        8
    } else if col == 5 {
        4
    } else if col == 6 {
        2
    } else {
        1
    }
}

/// Whether the sprite row `byte` has a lit pixel in column `col`.
pub open spec fn sprite_bit(byte: u8, col: int) -> bool {
    (byte as int / bit_weight(col)) % 2 == 1
}

/// Whether a sprite, eight pixels wide and one row per byte of `rows`, with
/// its top left corner at column `sx` of row `sy`, has a lit pixel at column
/// `px` of row `py`.
pub open spec fn sprite_covers(sx: int, sy: int, rows: Seq<u8>, px: int, py: int) -> bool {
    sy <= py < sy + rows.len() && sx <= px < sx + 8 && sprite_bit(rows[py - sy], px - sx)
}

/// Whether the sprite has a lit pixel where pixel number `k` of `pixels` is lit.
pub open spec fn sprite_hits(pixels: Seq<bool>, sx: int, sy: int, rows: Seq<u8>, k: int) -> bool {
    pixels[k] && sprite_covers(sx, sy, rows, k % (SCREEN_WIDTH as int), k / (SCREEN_WIDTH as int))
}

/// The grid after the sprite is combined into it by exclusive or. What of the
/// sprite falls outside the grid is cut off.
pub open spec fn blit(pixels: Seq<bool>, sx: int, sy: int, rows: Seq<u8>) -> Seq<bool> {
    Seq::new(
        pixels.len(),
        |k: int|
            pixels[k] != sprite_covers(
                sx,
                sy,
                rows,
                k % (SCREEN_WIDTH as int),
                k / (SCREEN_WIDTH as int),
            ),
    )
}

/// Whether drawing the sprite darkens a pixel that was lit.
pub open spec fn collides(pixels: Seq<bool>, sx: int, sy: int, rows: Seq<u8>) -> bool {
    exists|k: int| 0 <= k < pixels.len() && #[trigger] sprite_hits(pixels, sx, sy, rows, k)
}

/// Drawing a sprite twice at one place gives back the grid as it was.
pub proof fn law_blit_twice(pixels: Seq<bool>, sx: int, sy: int, rows: Seq<u8>)
    ensures
        blit(blit(pixels, sx, sy, rows), sx, sy, rows) == pixels,
{
    assert(blit(blit(pixels, sx, sy, rows), sx, sy, rows) =~= pixels);
}

} // verus!
