//! Drawing a sprite, pixel by pixel.

use crate::chip8::Devices;
use crate::chip8_errors::Chip8ErrorKind;
use crate::cpu::{flag_of, CPU};
use crate::graphics::{
    bit_weight, blit, collides, sprite_bit, sprite_covers, sprite_hits, SCREEN_HEIGHT,
    SCREEN_SIZE, SCREEN_WIDTH,
};
use crate::memory::{inside, span, RAM_SIZE};
use crate::semantics::{drawn, outcome};
use vstd::prelude::*;

verus! {

/// Whether the sprite covers pixel number `k`, its last row counted only up
/// to column `cols` of the sprite.
spec fn part_covers(sx: int, sy: int, rows: Seq<u8>, cols: int, k: int) -> bool {
    let px = k % (SCREEN_WIDTH as int);
    let py = k / (SCREEN_WIDTH as int);
    sprite_covers(sx, sy, rows, px, py) && (py == sy + rows.len() - 1 ==> px < sx + cols)
}

/// Whether the sprite, its last row counted only up to column `cols`, has a
/// lit pixel where pixel number `k` of `pixels` is lit.
spec fn part_hits(pixels: Seq<bool>, sx: int, sy: int, rows: Seq<u8>, cols: int, k: int) -> bool {
    pixels[k] && part_covers(sx, sy, rows, cols, k)
}

/// Whether the pixels are those of `before` with the sprite drawn over them,
/// its last row counted only up to column `cols`.
spec fn part_drawn(
    pixels: Seq<bool>,
    before: Seq<bool>,
    sx: int,
    sy: int,
    rows: Seq<u8>,
    cols: int,
) -> bool {
    pixels.len() == before.len() && forall|k: int|
        0 <= k < before.len() ==> pixels[k] == (before[k] != #[trigger] part_covers(
            sx,
            sy,
            rows,
            cols,
            k,
        ))
}

/// Whether `flag` says that the sprite, its last row counted only up to
/// column `cols`, has darkened a pixel of `before`.
spec fn part_flagged(
    flag: u8,
    before: Seq<bool>,
    sx: int,
    sy: int,
    rows: Seq<u8>,
    cols: int,
) -> bool {
    flag == flag_of(
        exists|k: int| 0 <= k < before.len() && #[trigger] part_hits(before, sx, sy, rows, cols, k),
    )
}

/// A sprite with a fresh last row of which nothing is counted yet is the
/// sprite without that row.
proof fn lemma_part_starts(
    pixels: Seq<bool>,
    flag: u8,
    before: Seq<bool>,
    sx: int,
    sy: int,
    rows: Seq<u8>,
    byte: u8,
)
    requires
        pixels == blit(before, sx, sy, rows),
        flag == flag_of(collides(before, sx, sy, rows)),
    ensures
        part_drawn(pixels, before, sx, sy, rows.push(byte), 0),
        part_flagged(flag, before, sx, sy, rows.push(byte), 0),
{
    let more = rows.push(byte);
    let w = SCREEN_WIDTH as int;
    assert forall|k: int| #[trigger]
        part_covers(sx, sy, more, 0, k) == sprite_covers(sx, sy, rows, k % w, k / w) by {
        if sy <= k / w < sy + rows.len() {
            assert(more[k / w - sy] == rows[k / w - sy]);
        }
    }
    if collides(before, sx, sy, rows) {
        let k = choose|k: int|
            0 <= k < before.len() && #[trigger] sprite_hits(before, sx, sy, rows, k);
        assert(part_hits(before, sx, sy, more, 0, k));
    }
    assert forall|k: int| 0 <= k < before.len() && #[trigger] part_hits(
        before,
        sx,
        sy,
        more,
        0,
        k,
    ) implies sprite_hits(before, sx, sy, rows, k) by {}
}

/// A sprite whose last row is counted up to the edge of the sprite or of
/// the screen is the whole sprite.
proof fn lemma_part_ends(
    pixels: Seq<bool>,
    flag: u8,
    before: Seq<bool>,
    sx: int,
    sy: int,
    rows: Seq<u8>,
    cols: int,
)
    requires
        before.len() == SCREEN_SIZE,
        0 <= sx,
        cols == 8 || sx + cols == SCREEN_WIDTH,
        part_drawn(pixels, before, sx, sy, rows, cols),
        part_flagged(flag, before, sx, sy, rows, cols),
    ensures
        pixels == blit(before, sx, sy, rows),
        flag == flag_of(collides(before, sx, sy, rows)),
{
    let w = SCREEN_WIDTH as int;
    assert forall|k: int| 0 <= k < before.len() implies pixels[k] == blit(
        before,
        sx,
        sy,
        rows,
    )[k] by {
        assert(part_covers(sx, sy, rows, cols, k) == sprite_covers(sx, sy, rows, k % w, k / w));
    }
    assert(pixels =~= blit(before, sx, sy, rows));
    if collides(before, sx, sy, rows) {
        let k = choose|k: int|
            0 <= k < before.len() && #[trigger] sprite_hits(before, sx, sy, rows, k);
        assert(part_hits(before, sx, sy, rows, cols, k));
    }
    assert forall|k: int| 0 <= k < before.len() && #[trigger] part_hits(
        before,
        sx,
        sy,
        rows,
        cols,
        k,
    ) implies sprite_hits(before, sx, sy, rows, k) by {}
}

/// Counting one more column of the last row draws one more pixel.
proof fn lemma_part_step(
    pixels: Seq<bool>,
    flag: u8,
    before: Seq<bool>,
    sx: int,
    sy: int,
    rows: Seq<u8>,
    cols: int,
)
    requires
        before.len() == SCREEN_SIZE,
        rows.len() > 0,
        0 <= sx,
        0 <= sy,
        0 <= cols < 8,
        sx + cols < SCREEN_WIDTH,
        sy + rows.len() <= SCREEN_HEIGHT,
        part_drawn(pixels, before, sx, sy, rows, cols),
        part_flagged(flag, before, sx, sy, rows, cols),
    ensures
        ({
            let row = sy + rows.len() - 1;
            let k = row * SCREEN_WIDTH + sx + cols;
            let bit = sprite_bit(rows.last(), cols);
            &&& 0 <= k < SCREEN_SIZE
            &&& pixels[k] == before[k]
            &&& part_drawn(pixels.update(k, pixels[k] != bit), before, sx, sy, rows, cols + 1)
            &&& part_flagged(
                if before[k] && bit {
                    1
                } else {
                    flag
                },
                before,
                sx,
                sy,
                rows,
                cols + 1,
            )
        }),
{
    let row = sy + rows.len() - 1;
    let k0 = row * SCREEN_WIDTH + sx + cols;
    let bit = sprite_bit(rows.last(), cols);
    let w = SCREEN_WIDTH as int;
    assert(k0 % w == sx + cols && k0 / w == row);
    assert(!part_covers(sx, sy, rows, cols, k0));
    assert forall|k: int| 0 <= k < before.len() implies #[trigger] part_covers(
        sx,
        sy,
        rows,
        cols + 1,
        k,
    ) == (part_covers(sx, sy, rows, cols, k) || (k == k0 && bit)) by {
        if k % w == sx + cols && k / w == row {
            assert(k == k0);
        }
    }
    let after = pixels.update(k0, pixels[k0] != bit);
    assert(part_drawn(after, before, sx, sy, rows, cols + 1));
    let was = exists|k: int|
        0 <= k < before.len() && #[trigger] part_hits(before, sx, sy, rows, cols, k);
    let is = exists|k: int|
        0 <= k < before.len() && #[trigger] part_hits(before, sx, sy, rows, cols + 1, k);
    if was {
        let k = choose|k: int|
            0 <= k < before.len() && #[trigger] part_hits(before, sx, sy, rows, cols, k);
        assert(part_hits(before, sx, sy, rows, cols + 1, k));
    }
    if before[k0] && bit {
        assert(part_hits(before, sx, sy, rows, cols + 1, k0));
    }
    if is {
        let k = choose|k: int|
            0 <= k < before.len() && #[trigger] part_hits(before, sx, sy, rows, cols + 1, k);
        if k != k0 {
            assert(part_hits(before, sx, sy, rows, cols, k));
        }
    }
}

/// The bit that the executable code tests is the bit of the model.
proof fn lemma_sprite_bit(byte: u8, col: u8)
    requires
        col < 8,
    ensures
        ((byte & (0x80u8 >> col)) > 0) == sprite_bit(byte, col as int),
{
    let w: u8 = bit_weight(col as int) as u8;
    assert(((byte & (0x80u8 >> col)) > 0) == ((byte / w) % 2 == 1)) by (bit_vector)
        requires
            col < 8,
            w == (if col == 0 {
                128u8
            } else if col == 1 {
                64u8
            } else if col == 2 {
                32u8
            } else if col == 3 {
                16u8
            } else if col == 4 {
                8u8
            } else if col == 5 {
                4u8
            } else if col == 6 {
                2u8
            } else {
                1u8
            }),
    ;
}

impl CPU {
    /// Draws a sprite: see `drawn`.
    pub fn instr_dxyn(&mut self, x: u8, y: u8, n: u8, devices: &mut Devices) -> (r: Result<
        (),
        Chip8ErrorKind,
    >)
        requires
            old(self).wf(),
            x < 16,
            y < 16,
        ensures
            final(self).wf(),
            outcome(*final(self), *final(devices), r) == drawn(
                old(self)@,
                old(devices)@,
                x,
                y,
                n,
            ),
    {
        let startx = self.v[x as usize] % SCREEN_WIDTH as u8;
        let starty = self.v[y as usize] % SCREEN_HEIGHT as u8;

        self.v[0xF] = 0;
        let ghost before = old(devices)@.screen.pixels;
        let ghost sx = startx as int;
        let ghost sy = starty as int;
        let ghost base = self.i as int;
        proof {
            old(devices).lemma_sizes();
            assert(before =~= blit(before, sx, sy, Seq::<u8>::empty()));
            assert(!collides(before, sx, sy, Seq::<u8>::empty()));
            assert(span(old(devices)@.ram, base, 0) =~= Seq::<u8>::empty());
        }
        let mut index: u8 = 0;
        while index < n && starty + index < SCREEN_HEIGHT as u8
            invariant
                x < 16,
                y < 16,
                startx == old(self)@.v[x as int] % (SCREEN_WIDTH as u8),
                starty == old(self)@.v[y as int] % (SCREEN_HEIGHT as u8),
                sx == startx,
                sy == starty,
                index <= n,
                starty + index <= SCREEN_HEIGHT,
                self.wf(),
                base == old(self)@.i,
                before == old(devices)@.screen.pixels,
                before.len() == SCREEN_SIZE,
                index == inside(base, index as int),
                devices@.ram == old(devices)@.ram,
                devices@.ram.len() == RAM_SIZE,
                devices@.keys == old(devices)@.keys,
                devices@.screen.updated == (old(devices)@.screen.updated || index > 0),
                devices@.screen.pixels == blit(
                    before,
                    sx,
                    sy,
                    span(devices@.ram, base, index as int),
                ),
                self@ == old(self)@.with_flag(
                    flag_of(collides(before, sx, sy, span(devices@.ram, base, index as int))),
                ),
            decreases n - index,
        {
            let ypos = starty + index;
            let byte = devices.ram.read8(index as u16 + self.i)?;
            let ghost rows = span(devices@.ram, base, index + 1);
            proof {
                assert(rows =~= span(devices@.ram, base, index as int).push(byte));
                lemma_part_starts(
                    devices@.screen.pixels,
                    self.v@[15],
                    before,
                    sx,
                    sy,
                    span(devices@.ram, base, index as int),
                    byte,
                );
            }
            let mut col: u8 = 0;
            while col < 8 && startx + col < SCREEN_WIDTH as u8
                invariant
                    startx < SCREEN_WIDTH,
                    sx == startx,
                    sy == starty,
                    ypos == starty + index,
                    ypos < SCREEN_HEIGHT,
                    col <= 8,
                    startx + col <= SCREEN_WIDTH,
                    self.wf(),
                    before.len() == SCREEN_SIZE,
                    rows.len() == index + 1,
                    rows.last() == byte,
                    devices@.ram == old(devices)@.ram,
                    devices@.keys == old(devices)@.keys,
                    devices@.screen.updated == (old(devices)@.screen.updated || index > 0 || col
                        > 0),
                    part_drawn(devices@.screen.pixels, before, sx, sy, rows, col as int),
                    part_flagged(self.v@[15], before, sx, sy, rows, col as int),
                    self@ == old(self)@.with_flag(self.v@[15]),
                decreases 8 - col,
            {
                let xpos = startx + col;
                proof {
                    lemma_part_step(
                        devices@.screen.pixels,
                        self.v@[15],
                        before,
                        sx,
                        sy,
                        rows,
                        col as int,
                    );
                    lemma_sprite_bit(byte, col);
                }
                let previous_pixel = devices.screen.is_pixel_set(xpos as usize, ypos as usize);

                devices.screen.set_pixel(
                    xpos as usize,
                    ypos as usize,
                    (byte & (0x80u8 >> col)) > 0,
                );

                let current_pixel = devices.screen.is_pixel_set(xpos as usize, ypos as usize);
                if previous_pixel && !current_pixel {
                    self.v[0xF] = 1;
                }
                assert(self@.v =~= old(self)@.v.update(15, self.v@[15]));
                col += 1;
            }
            proof {
                lemma_part_ends(
                    devices@.screen.pixels,
                    self.v@[15],
                    before,
                    sx,
                    sy,
                    rows,
                    col as int,
                );
            }
            index += 1;
        }

        Ok(())
    }
}

} // verus!
