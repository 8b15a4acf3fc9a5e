use vstd::prelude::*;

verus! {

/// Width of the screen in pixels.
pub const SCREEN_WIDTH: usize = 64;

/// Height of the screen in pixels.
pub const SCREEN_HEIGHT: usize = 32;

/// State of one pixel of the monochrome screen.
#[derive(Clone, Copy, Debug, PartialEq, Eq, Structural)]
pub enum Pixel {
    On,
    Off,
}

impl Pixel {
    /// The opposite state.
    pub open spec fn flipped(self) -> Pixel {
        match self {
            Pixel::On => Pixel::Off,
            Pixel::Off => Pixel::On,
        }
    }

    /// The opposite state.
    pub fn flip(&self) -> (r: Pixel)
        ensures
            r == self.flipped(),
    {
        if *self == Pixel::On {
            Pixel::Off
        } else {
            Pixel::On
        }
    }
}

/// Position of pixel `(x, y)` in the pixel sequence.
pub open spec fn pixel_index(x: int, y: int) -> int {
    y * 64 + x
}

/// Whether `(x, y)` lies on the screen.
pub open spec fn on_screen(x: int, y: int) -> bool {
    0 <= x < 64 && 0 <= y < 32
}

/// Whether column `col` (0 is the leftmost) of a sprite row is set.
pub open spec fn sprite_bit(byte: u8, col: u8) -> bool {
    byte & (0x80u8 >> col) != 0
}

/// Byte `row` of a sprite stored at address `i`; addresses wrap at the end of
/// memory.
pub open spec fn sprite_row(ram: Seq<u8>, i: u16, row: int) -> u8 {
    ram[(i + row) % 4096]
}

/// Whether an `n`-row sprite stored at `i` and drawn at `(x0, y0)` has a set
/// bit over pixel `(x, y)`.
pub open spec fn covers(ram: Seq<u8>, i: u16, x0: int, y0: int, n: int, x: int, y: int) -> bool {
    &&& y0 <= y < y0 + n
    &&& x0 <= x < x0 + 8
    &&& sprite_bit(sprite_row(ram, i, y - y0), (x - x0) as u8)
}

/// The screen after drawing the sprite with XOR: each on-screen pixel under
/// a set bit flips; parts of the sprite off the screen are dropped.
pub open spec fn drawn(pixels: Seq<Pixel>, ram: Seq<u8>, i: u16, x0: int, y0: int, n: int) -> Seq<
    Pixel,
> {
    Seq::new(
        pixels.len(),
        |k: int|
            if covers(ram, i, x0, y0, n, k % 64, k / 64) {
                pixels[k].flipped()
            } else {
                pixels[k]
            },
    )
}

/// Whether pixel `(x, y)` is under a set bit of the first `row` rows of the
/// sprite, or of the first `col` columns of row `row`.
pub open spec fn covered_so_far(
    ram: Seq<u8>,
    i: u16,
    x0: int,
    y0: int,
    row: int,
    col: int,
    x: int,
    y: int,
) -> bool {
    ||| covers(ram, i, x0, y0, row, x, y)
    ||| y == y0 + row && x0 <= x < x0 + col && sprite_bit(sprite_row(ram, i, row), (x - x0) as u8)
}

/// Whether drawing the sprite turns some pixel that is on off.
pub open spec fn collides(pixels: Seq<Pixel>, ram: Seq<u8>, i: u16, x0: int, y0: int, n: int) -> bool {
    exists|x: int, y: int|
        on_screen(x, y) && covers(ram, i, x0, y0, n, x, y) && #[trigger] pixels[pixel_index(x, y)]
            == Pixel::On
}

/// The changes that drawing columns `0..cols` of sprite row `row` reports, in
/// order: each flipped pixel with its new state.
pub open spec fn row_changes(
    pixels: Seq<Pixel>,
    ram: Seq<u8>,
    i: u16,
    x0: int,
    y0: int,
    row: int,
    cols: int,
) -> Seq<(u8, u8, Pixel)>
    decreases cols,
{
    if cols <= 0 {
        seq![]
    } else {
        let prev = row_changes(pixels, ram, i, x0, y0, row, cols - 1);
        let x = x0 + cols - 1;
        let y = y0 + row;
        if on_screen(x, y) && sprite_bit(sprite_row(ram, i, row), (cols - 1) as u8) {
            prev.push((x as u8, y as u8, pixels[pixel_index(x, y)].flipped()))
        } else {
            prev
        }
    }
}

/// The changes that drawing rows `0..rows` of the sprite reports, row by row
/// and left to right.
pub open spec fn sprite_changes(
    pixels: Seq<Pixel>,
    ram: Seq<u8>,
    i: u16,
    x0: int,
    y0: int,
    rows: int,
) -> Seq<(u8, u8, Pixel)>
    decreases rows,
{
    if rows <= 0 {
        seq![]
    } else {
        sprite_changes(pixels, ram, i, x0, y0, rows - 1) + row_changes(
            pixels,
            ram,
            i,
            x0,
            y0,
            rows - 1,
            8,
        )
    }
}

/// Distinct on-screen positions have distinct pixel indices.
pub proof fn lemma_pixel_index_injective(x1: int, y1: int, x2: int, y2: int)
    requires
        on_screen(x1, y1),
        on_screen(x2, y2),
        pixel_index(x1, y1) == pixel_index(x2, y2),
    ensures
        x1 == x2,
        y1 == y2,
{
}

/// Coordinates of a pixel index.
pub proof fn lemma_pixel_coordinates(k: int)
    requires
        0 <= k < 2048,
    ensures
        on_screen(k % 64, k / 64),
        pixel_index(k % 64, k / 64) == k,
{
}

/// The pixel index of an on-screen position gives its coordinates back.
pub proof fn lemma_pixel_index(x: int, y: int)
    requires
        on_screen(x, y),
    ensures
        0 <= pixel_index(x, y) < 2048,
        pixel_index(x, y) % 64 == x,
        pixel_index(x, y) / 64 == y,
{
}

/// Drawing the same sprite twice at the same place restores the screen, and
/// the second drawing collides exactly when the sprite covers some on-screen
/// pixel that was off before the first.
pub proof fn lemma_draw_twice(pixels: Seq<Pixel>, ram: Seq<u8>, i: u16, x0: int, y0: int, n: int)
    requires
        pixels.len() == 2048,
    ensures
        drawn(drawn(pixels, ram, i, x0, y0, n), ram, i, x0, y0, n) == pixels,
        collides(drawn(pixels, ram, i, x0, y0, n), ram, i, x0, y0, n) <==> exists|x: int, y: int|
            on_screen(x, y) && covers(ram, i, x0, y0, n, x, y) && #[trigger] pixels[pixel_index(
                x,
                y,
            )] == Pixel::Off,
{
    let once = drawn(pixels, ram, i, x0, y0, n);
    assert(drawn(once, ram, i, x0, y0, n) =~= pixels);
    if collides(once, ram, i, x0, y0, n) {
        let (x, y) = choose|x: int, y: int|
            on_screen(x, y) && covers(ram, i, x0, y0, n, x, y) && #[trigger] once[pixel_index(x, y)]
                == Pixel::On;
        lemma_pixel_index(x, y);
        assert(pixels[pixel_index(x, y)] == Pixel::Off);
    }
    if exists|x: int, y: int|
        on_screen(x, y) && covers(ram, i, x0, y0, n, x, y) && #[trigger] pixels[pixel_index(x, y)]
            == Pixel::Off {
        let (x, y) = choose|x: int, y: int|
            on_screen(x, y) && covers(ram, i, x0, y0, n, x, y) && #[trigger] pixels[pixel_index(
                x,
                y,
            )] == Pixel::Off;
        lemma_pixel_index(x, y);
        assert(once[pixel_index(x, y)] == Pixel::On);
    }
}

} // verus!
