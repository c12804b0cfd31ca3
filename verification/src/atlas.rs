//! The bitmap font atlas: ASCII glyphs rasterized into one RGBA image,
//! sixteen glyph cells per row, with each glyph's sub-rectangle recorded
//! as exact normalized texture coordinates.
//!
//! Every atlas pixel is white with the glyph's coverage in the alpha
//! channel, so text can be tinted by a flat color through the mixing
//! coloring mode.

use vstd::prelude::*;

use crate::font::rasterize_glyph;
use crate::rat::{Rat, Ratio};
use crate::vec2::{Vec2, V2};

verus! {

/// Pixels per glyph cell and per rasterized glyph.
pub const GLYPH_PIXELS: usize = 64;

/// Atlas width in pixels: seventeen cell widths.
pub const ATLAS_WIDTH: usize = 64 * 17;

/// Atlas height in pixels: seven cell heights.
pub const ATLAS_HEIGHT: usize = 64 * 7;

/// The printable ASCII range packed into the atlas.
pub const GLYPH_COUNT: usize = 96;

/// The byte index of the red channel of pixel `(col, row)`.
pub open spec fn pixel_index(col: int, row: int) -> int {
    (row * (64 * 17) + col) * 4
}

/// One packed glyph: its pixel dimensions and its sub-rectangle of the
/// atlas in normalized texture space.
pub struct PackedCharacter {
    pub character: char,
    pub width: usize,
    pub height: usize,
    pub texture_position: Vec2,
    pub texture_dimensions: Vec2,
}


/// The top-left pixel column of glyph cell `j`.
pub open spec fn cell_col(j: int) -> int {
    (j % 16) * 64
}

/// The top-left pixel row of glyph cell `j`.
pub open spec fn cell_row(j: int) -> int {
    (j / 16) * 64
}

/// Whether the glyph recorded as entry `pc` of cell `j` covers pixel
/// `(col, row)`.
pub open spec fn glyph_covers(pc: PackedCharacter, j: int, col: int, row: int) -> bool {
    cell_col(j) <= col < cell_col(j) + pc.width && cell_row(j) <= row < cell_row(j) + pc.height
}

/// The finished atlas: the RGBA image and one entry per packed glyph, in
/// character order from space onward.
pub struct Atlas {
    pub image: Vec<u8>,
    pub characters: Vec<PackedCharacter>,
}

/// The top-left pixel of glyph cell `index`: sixteen cells per row.
pub fn cell_origin(index: usize) -> (r: (usize, usize))
    requires
        index < GLYPH_COUNT,
    ensures
        r.0 == (index % 16) * 64,
        r.1 == (index / 16) * 64,
        r.0 + 64 <= ATLAS_WIDTH,
        r.1 + 64 <= ATLAS_HEIGHT,
{
    ((index % 16) * 64, (index / 16) * 64)
}

/// Writes one glyph's coverage into the image: each covered pixel becomes
/// white with the glyph's coverage as alpha; every other pixel keeps its
/// bytes.
pub fn blit_glyph(
    image: &mut Vec<u8>,
    x_over: usize,
    y_down: usize,
    gw: usize,
    gh: usize,
    raster: &Vec<u8>,
)
    requires
        old(image)@.len() == ATLAS_WIDTH * ATLAS_HEIGHT * 4,
        raster@.len() == gw * gh,
        x_over + gw <= ATLAS_WIDTH,
        y_down + gh <= ATLAS_HEIGHT,
    ensures
        final(image)@.len() == old(image)@.len(),
        forall|px: int, py: int|
            0 <= px < gw && 0 <= py < gh ==> {
                let base = #[trigger] pixel_index(x_over + px, y_down + py);
                &&& final(image)@[base] == 255
                &&& final(image)@[base + 1] == 255
                &&& final(image)@[base + 2] == 255
                &&& final(image)@[base + 3] == raster@[py * gw + px]
            },
        forall|col: int, row: int, k: int|
            0 <= col < ATLAS_WIDTH && 0 <= row < ATLAS_HEIGHT && 0 <= k < 4 && !(x_over <= col
                < x_over + gw && y_down <= row < y_down + gh) ==> #[trigger] final(image)@[pixel_index(
                col,
                row,
            ) + k] == old(image)@[pixel_index(col, row) + k],
{
    let ghost img0 = image@;
    proof {
        assert(ATLAS_WIDTH * ATLAS_HEIGHT * 4 == (64 * 17) * ((64 * 7) * 4)) by (nonlinear_arith);
    }
    let mut x: usize = 0;
    while x < gw
        invariant
            0 <= x <= gw,
            image@.len() == img0.len() == ATLAS_WIDTH * ATLAS_HEIGHT * 4,
            raster@.len() == gw * gh,
            x_over + gw <= ATLAS_WIDTH,
            y_down + gh <= ATLAS_HEIGHT,
            forall|px: int, py: int|
                0 <= px < x && 0 <= py < gh ==> {
                    let base = #[trigger] pixel_index(x_over + px, y_down + py);
                    &&& image@[base] == 255
                    &&& image@[base + 1] == 255
                    &&& image@[base + 2] == 255
                    &&& image@[base + 3] == raster@[py * gw + px]
                },
            forall|col: int, row: int, k: int|
                0 <= col < ATLAS_WIDTH && 0 <= row < ATLAS_HEIGHT && 0 <= k < 4 && !(x_over <= col
                    < x_over + x && y_down <= row < y_down + gh) ==> #[trigger] image@[pixel_index(
                    col,
                    row,
                ) + k] == img0[pixel_index(col, row) + k],
        decreases gw - x,
    {
        let mut y: usize = 0;
        while y < gh
            invariant
                0 <= x < gw,
                0 <= y <= gh,
                image@.len() == img0.len() == ATLAS_WIDTH * ATLAS_HEIGHT * 4,
                raster@.len() == gw * gh,
                x_over + gw <= ATLAS_WIDTH,
                y_down + gh <= ATLAS_HEIGHT,
                forall|px: int, py: int|
                    (0 <= px < x && 0 <= py < gh) || (px == x && 0 <= py < y) ==> {
                        let base = #[trigger] pixel_index(x_over + px, y_down + py);
                        &&& image@[base] == 255
                        &&& image@[base + 1] == 255
                        &&& image@[base + 2] == 255
                        &&& image@[base + 3] == raster@[py * gw + px]
                    },
                forall|col: int, row: int, k: int|
                    0 <= col < ATLAS_WIDTH && 0 <= row < ATLAS_HEIGHT && 0 <= k < 4 && !(x_over
                        <= col < x_over + x + 1 && y_down <= row < y_down + gh) ==> #[trigger] image@[
                        pixel_index(col, row) + k] == img0[pixel_index(col, row) + k],
            decreases gh - y,
        {
            let rl: usize = raster.len();
            proof {
                assert(y * gw + x < gh * gw) by (nonlinear_arith)
                    requires
                        0 <= x < gw,
                        0 <= y < gh,
                ;
                assert(gh * gw == gw * gh) by (nonlinear_arith);
                assert(y * gw + x < rl);
            }
            let raster_idx: usize = y * gw + x;
            let row: usize = y_down + y;
            let col: usize = x_over + x;
            proof {
                assert(row < 64 * 7);
                assert(col < 64 * 17);
                assert(row * (64 * 17) <= (64 * 7 - 1) * (64 * 17)) by (nonlinear_arith)
                    requires
                        0 <= row <= 64 * 7 - 1,
                ;
                assert(row * (64 * 17) + col < (64 * 7) * (64 * 17));
            }
            let base: usize = (row * (64 * 17) + col) * 4;
            proof {
                assert(image@.len() == ATLAS_WIDTH * ATLAS_HEIGHT * 4);
                assert(ATLAS_WIDTH == 1088);
                assert(ATLAS_HEIGHT == 448);
                assert(base == (row * 1088 + col) * 4);
                assert(row * 1088 + col < 487424);
                assert(base + 3 < 1949696);
                assert(base + 3 < image@.len());
            }
            let coverage: u8 = raster[raster_idx];
            image.set(base, 255);
            image.set(base + 1, 255);
            image.set(base + 2, 255);
            image.set(base + 3, coverage);
            y += 1;
        }
        x += 1;
    }
}

/// Lays the font's printable ASCII glyphs out into the atlas. Each glyph
/// is rasterized at the cell size and written into its cell; a glyph the
/// rasterizer reports larger than its remaining room is recorded with zero
/// dimensions and left blank. Each entry's texture coordinates are the
/// exact ratios of its cell origin and pixel dimensions to the atlas size.
/// Within every recorded glyph rectangle the image is white (the alpha
/// channel carries the rasterizer's coverage); every byte outside all
/// recorded rectangles is zero.
pub fn layout_atlas(font: &fontdue::Font) -> (a: Atlas)
    ensures
        a.image@.len() == ATLAS_WIDTH * ATLAS_HEIGHT * 4,
        a.characters@.len() == GLYPH_COUNT,
        forall|j: int|
            0 <= j < GLYPH_COUNT ==> {
                let pc = #[trigger] a.characters@[j];
                &&& pc.character == (((j + 32) as u8) as char)
                &&& pc.texture_position@ == (V2 {
                    x: Ratio { n: (j % 16) * 64, d: (64 * 17) as int },
                    y: Ratio { n: (j / 16) * 64, d: (64 * 7) as int },
                })
                &&& pc.texture_dimensions@ == (V2 {
                    x: Ratio { n: pc.width as int, d: (64 * 17) as int },
                    y: Ratio { n: pc.height as int, d: (64 * 7) as int },
                })
                &&& (j % 16) * 64 + pc.width <= ATLAS_WIDTH
                &&& (j / 16) * 64 + pc.height <= ATLAS_HEIGHT
            },
        forall|j: int, px: int, py: int|
            0 <= j < GLYPH_COUNT && 0 <= px < a.characters@[j].width && 0 <= py
                < a.characters@[j].height ==> {
                let base = #[trigger] pixel_index(cell_col(j) + px, cell_row(j) + py);
                &&& a.image@[base] == 255
                &&& a.image@[base + 1] == 255
                &&& a.image@[base + 2] == 255
            },
        forall|col: int, row: int, k: int|
            0 <= col < ATLAS_WIDTH && 0 <= row < ATLAS_HEIGHT && 0 <= k < 4 && (forall|j: int|
                0 <= j < GLYPH_COUNT ==> !(#[trigger] glyph_covers(a.characters@[j], j, col, row)))
                ==> #[trigger] a.image@[pixel_index(col, row) + k] == 0,
{
    let total: usize = ATLAS_WIDTH * ATLAS_HEIGHT * 4;
    let mut image: Vec<u8> = Vec::new();
    let mut i: usize = 0;
    while i < total
        invariant
            image@.len() == i <= total,
            forall|b: int| 0 <= b < i ==> image@[b] == 0,
        decreases total - i,
    {
        image.push(0);
        i += 1;
    }

    proof {
        // the freshly filled image is zero at every pixel byte
        assert forall|col: int, row: int, k: int|
            #![trigger image@[pixel_index(col, row) + k]]
            0 <= col < ATLAS_WIDTH && 0 <= row < ATLAS_HEIGHT && 0 <= k < 4 implies image@[
            pixel_index(col, row) + k] == 0 by {
            assert(row * (64 * 17) <= (64 * 7 - 1) * (64 * 17)) by (nonlinear_arith)
                requires
                    0 <= row <= 64 * 7 - 1,
            ;
            assert(row * (64 * 17) >= 0) by (nonlinear_arith)
                requires
                    row >= 0,
            ;
            assert(ATLAS_WIDTH == 1088 && ATLAS_HEIGHT == 448);
            assert(image@.len() == 1949696);
            assert(0 <= row * (64 * 17) + col < 487424) by (nonlinear_arith)
                requires
                    0 <= row < 448,
                    0 <= col < 1088,
            ;
            assert((row * (64 * 17) + col) * 4 <= 487423 * 4) by (nonlinear_arith)
                requires
                    row * (64 * 17) + col <= 487423,
            ;
            assert((row * (64 * 17) + col) * 4 >= 0) by (nonlinear_arith)
                requires
                    row * (64 * 17) + col >= 0,
            ;
            assert(0 <= pixel_index(col, row) + k < 1949696);
        }
    }

    let mut characters: Vec<PackedCharacter> = Vec::new();
    let mut idx: usize = 0;
    while idx < GLYPH_COUNT
        invariant
            0 <= idx <= GLYPH_COUNT,
            image@.len() == ATLAS_WIDTH * ATLAS_HEIGHT * 4,
            characters@.len() == idx,
            forall|j: int|
                0 <= j < idx ==> {
                    let pc = #[trigger] characters@[j];
                    &&& pc.character == (((j + 32) as u8) as char)
                    &&& pc.texture_position@ == (V2 {
                        x: Ratio { n: (j % 16) * 64, d: (64 * 17) as int },
                        y: Ratio { n: (j / 16) * 64, d: (64 * 7) as int },
                    })
                    &&& pc.texture_dimensions@ == (V2 {
                        x: Ratio { n: pc.width as int, d: (64 * 17) as int },
                        y: Ratio { n: pc.height as int, d: (64 * 7) as int },
                    })
                    &&& (j % 16) * 64 + pc.width <= ATLAS_WIDTH
                    &&& (j / 16) * 64 + pc.height <= ATLAS_HEIGHT
                },
            forall|j: int, px: int, py: int|
                0 <= j < idx && 0 <= px < characters@[j].width && 0 <= py
                    < characters@[j].height ==> {
                    let base = #[trigger] pixel_index(cell_col(j) + px, cell_row(j) + py);
                    &&& image@[base] == 255
                    &&& image@[base + 1] == 255
                    &&& image@[base + 2] == 255
                },
            forall|col: int, row: int, k: int|
                0 <= col < ATLAS_WIDTH && 0 <= row < ATLAS_HEIGHT && 0 <= k < 4 && (forall|
                    j: int,
                |
                    0 <= j < idx ==> !(#[trigger] glyph_covers(characters@[j], j, col, row)))
                    ==> #[trigger] image@[pixel_index(col, row) + k] == 0,
        decreases GLYPH_COUNT - idx,
    {
        let code: u8 = (idx as u8) + 32;
        let character: char = code as char;
        let (gw, gh, raster): (usize, usize, Vec<u8>) = rasterize_glyph(
            font,
            character,
            GLYPH_PIXELS as u16,
        );
        let (x_over, y_down): (usize, usize) = cell_origin(idx);
        let fits: bool = gw <= ATLAS_WIDTH - x_over && gh <= ATLAS_HEIGHT - y_down;
        let ghost img_before = image@;
        let ghost chars_before = characters@;
        let (width, height): (usize, usize) = if fits {
            blit_glyph(&mut image, x_over, y_down, gw, gh, &raster);
            (gw, gh)
        } else {
            (0, 0)
        };
        let texture_position: Vec2 = Vec2::new(
            Rat::new(x_over as i64, 64 * 17),
            Rat::new(y_down as i64, 64 * 7),
        );
        let texture_dimensions: Vec2 = Vec2::new(
            Rat::new(width as i64, 64 * 17),
            Rat::new(height as i64, 64 * 7),
        );
        characters.push(
            PackedCharacter { character, width, height, texture_position, texture_dimensions },
        );
        proof {
            let n = idx as int;
            assert(characters@.len() == n + 1);
            assert(forall|j: int| 0 <= j < n ==> characters@[j] == #[trigger] chars_before[j]);
            assert(cell_col(n) == x_over && cell_row(n) == y_down);
            assert(characters@[n].width == width && characters@[n].height == height);

            // the white-inside clause survives this glyph
            assert forall|j: int, px: int, py: int|
                #![trigger pixel_index(cell_col(j) + px, cell_row(j) + py)]
                0 <= j < n + 1 && 0 <= px < characters@[j].width && 0 <= py
                    < characters@[j].height implies ({
                let base = pixel_index(cell_col(j) + px, cell_row(j) + py);
                &&& image@[base] == 255
                &&& image@[base + 1] == 255
                &&& image@[base + 2] == 255
            }) by {
                let col = cell_col(j) + px;
                let row = cell_row(j) + py;
                if j == n {
                    // a nonzero-size entry means the glyph was blitted
                    assert(fits);
                    assert(image@[pixel_index(x_over + px, y_down + py)] == 255);
                    assert(image@[pixel_index(x_over + px, y_down + py) + 1] == 255);
                    assert(image@[pixel_index(x_over + px, y_down + py) + 2] == 255);
                } else {
                    assert(characters@[j] == chars_before[j]);
                    assert(img_before[pixel_index(col, row)] == 255);
                    assert(img_before[pixel_index(col, row) + 1] == 255);
                    assert(img_before[pixel_index(col, row) + 2] == 255);
                    assert(0 <= col < ATLAS_WIDTH && 0 <= row < ATLAS_HEIGHT);
                    if fits {
                        if x_over <= col < x_over + gw && y_down <= row < y_down + gh {
                            let qx = col - x_over;
                            let qy = row - y_down;
                            assert(image@[pixel_index(x_over + qx, y_down + qy)] == 255);
                            assert(image@[pixel_index(x_over + qx, y_down + qy) + 1] == 255);
                            assert(image@[pixel_index(x_over + qx, y_down + qy) + 2] == 255);
                            assert(x_over + qx == col && y_down + qy == row);
                        } else {
                            assert(image@[pixel_index(col, row) + 0] == img_before[pixel_index(
                                col,
                                row,
                            ) + 0]);
                            assert(image@[pixel_index(col, row) + 1] == img_before[pixel_index(
                                col,
                                row,
                            ) + 1]);
                            assert(image@[pixel_index(col, row) + 2] == img_before[pixel_index(
                                col,
                                row,
                            ) + 2]);
                        }
                    }
                }
            }

            // the zero-outside clause survives this glyph
            assert forall|col: int, row: int, k: int|
                #![trigger image@[pixel_index(col, row) + k]]
                0 <= col < ATLAS_WIDTH && 0 <= row < ATLAS_HEIGHT && 0 <= k < 4 && (forall|
                    j: int,
                |
                    0 <= j < n + 1 ==> !(#[trigger] glyph_covers(characters@[j], j, col, row)))
                    implies image@[pixel_index(col, row) + k] == 0 by {
                assert(!glyph_covers(characters@[n], n, col, row));
                assert forall|j: int| 0 <= j < n implies !(#[trigger] glyph_covers(
                    chars_before[j],
                    j,
                    col,
                    row,
                )) by {
                    assert(chars_before[j] == characters@[j]);
                    assert(!glyph_covers(characters@[j], j, col, row));
                }
                assert(img_before[pixel_index(col, row) + k] == 0);
                if fits {
                    // outside the new entry's rectangle means outside the
                    // blit region, which the blit left untouched
                    assert(!(x_over <= col < x_over + gw && y_down <= row < y_down + gh));
                    assert(image@[pixel_index(col, row) + k] == img_before[pixel_index(col, row)
                        + k]);
                }
            }
        }
        idx += 1;
    }
    Atlas { image, characters }
}

impl Atlas {
    /// A complete atlas holds one entry per packed glyph.
    pub open spec fn wf(self) -> bool {
        self.characters@.len() == GLYPH_COUNT
    }

    /// The packed entry for `character`, if it is in the packed range.
    pub fn glyph(&self, character: char) -> (r: Option<&PackedCharacter>)
        requires
            self.wf(),
        ensures
            match r {
                Some(pc) => {
                    &&& 32 <= (character as u32) && (character as u32) < 128
                    &&& self.characters@[character as int - 32] == *pc
                },
                None => !(32 <= (character as u32) && (character as u32) < 128),
            },
    {
        let code: u32 = character as u32;
        if 32 <= code && code < 128 {
            Some(&self.characters[(code - 32) as usize])
        } else {
            None
        }
    }
}

} // verus!
