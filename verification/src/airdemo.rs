use vstd::prelude::*;

verus! {

/// The value of byte `i` of an RGBA checkerboard `width` pixels wide with
/// squares of `square_size` pixels: the alpha byte is 255; a colour byte is
/// 255 in a square whose column and row numbers add up to an even number
/// (white) and 0 otherwise (black).
pub open spec fn checker_byte(i: int, width: int, square_size: int) -> u8 {
    let p = i / 4;
    let x = p % width;
    let y = p / width;
    if i % 4 == 3 {
        255
    } else if (x / square_size + y / square_size) % 2 == 0 {
        255
    } else {
        0
    }
}

proof fn lemma_pixel_coords(x: int, y: int, width: int, k: int)
    requires
        0 <= x < width,
        0 <= y,
        0 <= k < 4,
    ensures
        (4 * (y * width + x) + k) / 4 == y * width + x,
        (4 * (y * width + x) + k) % 4 == k,
        (y * width + x) % width == x,
        (y * width + x) / width == y,
{
    assert((4 * (y * width + x) + k) / 4 == y * width + x) by (nonlinear_arith)
        requires
            0 <= k < 4,
            0 <= y * width + x,
    ;
    assert((4 * (y * width + x) + k) % 4 == k) by (nonlinear_arith)
        requires
            0 <= k < 4,
            0 <= y * width + x,
    ;
    assert((y * width + x) % width == x) by (nonlinear_arith)
        requires
            0 <= x < width,
            0 <= y,
    ;
    assert((y * width + x) / width == y) by (nonlinear_arith)
        requires
            0 <= x < width,
            0 <= y,
    ;
}

/// An RGBA pixel buffer of `width` x `height` showing a black and white
/// checkerboard of `square_size`-pixel squares, white at the top left.
pub fn generate_checkerboard(width: u32, height: u32, square_size: u32) -> (pixels: Vec<u8>)
    requires
        square_size > 0,
        width * height * 4 <= u32::MAX,
    ensures
        pixels@.len() == width * height * 4,
        forall|i: int| 0 <= i < pixels@.len() ==> pixels@[i] == checker_byte(i, width as int, square_size as int),
{
    let total = width * height * 4;
    let mut pixels: Vec<u8> = Vec::with_capacity(total as usize);
    let mut y: u32 = 0;
    while y < height
        invariant
            square_size > 0,
            width * height * 4 <= u32::MAX,
            y <= height,
            pixels@.len() == 4 * (y * width),
            forall|i: int| 0 <= i < pixels@.len() ==> pixels@[i] == checker_byte(i, width as int, square_size as int),
        decreases height - y,
    {
        let mut x: u32 = 0;
        while x < width
            invariant
                square_size > 0,
                width * height * 4 <= u32::MAX,
                y < height,
                x <= width,
                pixels@.len() == 4 * (y * width + x),
                forall|i: int| 0 <= i < pixels@.len() ==> pixels@[i] == checker_byte(i, width as int, square_size as int),
            decreases width - x,
        {
            proof {
                assert((y + 1) * width <= height * width) by (nonlinear_arith)
                    requires
                        y < height,
                ;
                assert(y * width + x < (y + 1) * width) by (nonlinear_arith)
                    requires
                        x < width,
                ;
                assert(height * width == width * height) by (nonlinear_arith);
            }
            let tile_x = x / square_size;
            let tile_y = y / square_size;
            proof {
                assert(tile_x <= x) by (nonlinear_arith)
                    requires
                        tile_x == x / square_size,
                        square_size > 0,
                ;
                assert(tile_y <= y) by (nonlinear_arith)
                    requires
                        tile_y == y / square_size,
                        square_size > 0,
                ;
                assert(y <= y * width) by (nonlinear_arith)
                    requires
                        x < width,
                ;
            }
            let white = (tile_x + tile_y) % 2 == 0;
            let val: u8 = if white { 255 } else { 0 };
            let ghost base = pixels@.len() as int;
            let ghost p = (y * width + x) as int;
            pixels.push(val);
            pixels.push(val);
            pixels.push(val);
            pixels.push(255);
            proof {
                assert forall|i: int| 0 <= i < pixels@.len() implies pixels@[i] == checker_byte(i, width as int, square_size as int) by {
                    if i >= base {
                        lemma_pixel_coords(x as int, y as int, width as int, i - base);
                    }
                }
                assert(4 * (y * width + x + 1) == base + 4);
            }
            x = x + 1;
        }
        proof {
            assert(y * width + width == (y + 1) * width) by (nonlinear_arith);
        }
        y = y + 1;
    }
    proof {
        assert(4 * (height * width) == width * height * 4) by (nonlinear_arith);
    }
    pixels
}

} // verus!
