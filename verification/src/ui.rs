use vstd::prelude::*;

verus! {

/// A rectangle of an image: its top-left corner and its size.
#[derive(PartialEq, Eq, Structural, Clone, Copy, Debug)]
pub struct PixelBox {
    pub x: u32,
    pub y: u32,
    pub width: u32,
    pub height: u32,
}

/// Whether the pixel at (`x`, `y`) of an image `width` pixels wide, whose
/// alpha values are listed row by row, is not fully transparent.
pub open spec fn opaque_at(alpha: Seq<u8>, width: int, x: int, y: int) -> bool {
    alpha[y * width + x] != 0
}

/// Whether the image has a pixel that is not fully transparent.
pub open spec fn has_opaque(alpha: Seq<u8>, width: int, height: int) -> bool {
    exists|x: int, y: int| 0 <= x < width && 0 <= y < height && #[trigger] opaque_at(alpha, width, x, y)
}

/// The box an alpha bound search gives: the smallest box around the pixels that
/// are not fully transparent.
pub open spec fn is_opaque_bound(alpha: Seq<u8>, width: int, height: int, b: PixelBox) -> bool {
    &&& b.width >= 1
    &&& b.height >= 1
    &&& b.x + b.width <= width
    &&& b.y + b.height <= height
    &&& forall|x: int, y: int|
        0 <= x < width && 0 <= y < height && #[trigger] opaque_at(alpha, width, x, y) ==> b.x <= x < b.x
            + b.width && b.y <= y < b.y + b.height
    &&& exists|y: int| 0 <= y < height && #[trigger] opaque_at(alpha, width, b.x as int, y)
    &&& exists|y: int| 0 <= y < height && #[trigger] opaque_at(alpha, width, b.x + b.width - 1, y)
    &&& exists|x: int| 0 <= x < width && #[trigger] opaque_at(alpha, width, x, b.y as int)
    &&& exists|x: int| 0 <= x < width && #[trigger] opaque_at(alpha, width, x, b.y + b.height - 1)
}

/// Finds the smallest box around the pixels of an image that are not fully
/// transparent, given the image's size and its alpha values row by row. An
/// image with no such pixel has no box, except an image with no pixels at
/// all, which is given the one-pixel box at its corner.
pub fn alpha_bounds(width: u32, height: u32, alpha: &Vec<u8>) -> (res: Option<PixelBox>)
    requires
        alpha@.len() == width * height,
    ensures
        width == 0 && height == 0 ==> res == Some(PixelBox { x: 0, y: 0, width: 1, height: 1 }),
        !(width == 0 && height == 0) && !has_opaque(alpha@, width as int, height as int) ==> res is None,
        has_opaque(alpha@, width as int, height as int) ==> (res matches Some(b) && is_opaque_bound(
            alpha@,
            width as int,
            height as int,
            b,
        )),
{
    let ghost w = width as int;
    let ghost h = height as int;
    let n = alpha.len();
    let mut x_largest: u32 = 0;
    let mut x_smallest: u32 = width;
    let mut y_largest: u32 = 0;
    let mut y_smallest: u32 = height;
    let mut found = false;
    // Pixels that show each bound is reached.
    let ghost mut xs_at: int = 0;
    let ghost mut xl_at: int = 0;
    let ghost mut ys_at: int = 0;
    let ghost mut yl_at: int = 0;
    let mut y: u32 = 0;
    let mut idx: usize = 0;
    while y < height
        invariant
            n == alpha@.len(),
            alpha@.len() == w * h,
            w == width,
            h == height,
            y <= height,
            idx == y * w,
            !found ==> forall|px: int, py: int|
                0 <= px < w && 0 <= py < y ==> !#[trigger] opaque_at(alpha@, w, px, py),
            found ==> {
                &&& x_smallest <= x_largest < width
                &&& y_smallest <= y_largest < y
                &&& forall|px: int, py: int|
                    0 <= px < w && 0 <= py < y && #[trigger] opaque_at(alpha@, w, px, py) ==> x_smallest <= px
                        <= x_largest && y_smallest <= py <= y_largest
                &&& 0 <= xs_at < h && opaque_at(alpha@, w, x_smallest as int, xs_at)
                &&& 0 <= xl_at < h && opaque_at(alpha@, w, x_largest as int, xl_at)
                &&& 0 <= ys_at < w && opaque_at(alpha@, w, ys_at, y_smallest as int)
                &&& 0 <= yl_at < w && opaque_at(alpha@, w, yl_at, y_largest as int)
            },
        decreases height - y,
    {
        let mut x: u32 = 0;
        proof {
            lemma_index_bound_row(w, h, y as int);
        }
        while x < width
            invariant
                n == alpha@.len(),
                alpha@.len() == w * h,
                w == width,
                h == height,
                y < height,
                x <= width,
                idx == y * w + x,
                y * w + w <= w * h,
                !found ==> forall|px: int, py: int|
                    0 <= px < w && 0 <= py < y ==> !#[trigger] opaque_at(alpha@, w, px, py),
                !found ==> forall|px: int| 0 <= px < x ==> !#[trigger] opaque_at(alpha@, w, px, y as int),
                found ==> {
                    &&& x_smallest <= x_largest < width
                    &&& y_smallest <= y_largest <= y
                    &&& forall|px: int, py: int|
                        0 <= px < w && 0 <= py < y && #[trigger] opaque_at(alpha@, w, px, py) ==> x_smallest <= px
                            <= x_largest && y_smallest <= py <= y_largest
                    &&& forall|px: int|
                        0 <= px < x && #[trigger] opaque_at(alpha@, w, px, y as int) ==> x_smallest <= px
                            <= x_largest && y_smallest <= y <= y_largest
                    &&& 0 <= xs_at < h && opaque_at(alpha@, w, x_smallest as int, xs_at)
                    &&& 0 <= xl_at < h && opaque_at(alpha@, w, x_largest as int, xl_at)
                    &&& 0 <= ys_at < w && opaque_at(alpha@, w, ys_at, y_smallest as int)
                    &&& 0 <= yl_at < w && opaque_at(alpha@, w, yl_at, y_largest as int)
                },
            decreases width - x,
        {
            if alpha[idx] != 0 {
                proof {
                    assert(opaque_at(alpha@, w, x as int, y as int));
                }
                if !found {
                    x_smallest = x;
                    x_largest = x;
                    y_smallest = y;
                    y_largest = y;
                    found = true;
                    proof {
                        xs_at = y as int;
                        xl_at = y as int;
                        ys_at = x as int;
                        yl_at = x as int;
                    }
                } else {
                    if x < x_smallest {
                        x_smallest = x;
                        proof {
                            xs_at = y as int;
                        }
                    }
                    if x > x_largest {
                        x_largest = x;
                        proof {
                            xl_at = y as int;
                        }
                    }
                    if y > y_largest {
                        y_largest = y;
                        proof {
                            yl_at = x as int;
                        }
                    }
                }
            }
            x = x + 1;
            idx = idx + 1;
        }
        proof {
            assert((y + 1) * w == y * w + w) by (nonlinear_arith);
        }
        y = y + 1;
    }
    if !found {
        if width == 0 && height == 0 {
            return Some(PixelBox { x: 0, y: 0, width: 1, height: 1 });
        }
        return None;
    }
    let b = PixelBox {
        x: x_smallest,
        y: y_smallest,
        width: x_largest - x_smallest + 1,
        height: y_largest - y_smallest + 1,
    };
    proof {
        assert(opaque_at(alpha@, w, b.x as int, xs_at));
        assert(opaque_at(alpha@, w, b.x + b.width - 1, xl_at));
        assert(opaque_at(alpha@, w, ys_at, b.y as int));
        assert(opaque_at(alpha@, w, yl_at, b.y + b.height - 1));
    }
    Some(b)
}

proof fn lemma_index_bound_row(w: int, h: int, y: int)
    requires
        0 <= y < h,
        w >= 0,
    ensures
        y * w + w <= w * h,
{
    assert(y * w + w == (y + 1) * w) by (nonlinear_arith);
    assert((y + 1) * w <= h * w) by (nonlinear_arith)
        requires
            y + 1 <= h,
            w >= 0,
    ;
    assert(h * w == w * h) by (nonlinear_arith);
}

/// The alpha values of an RGBA image given byte by byte: the fourth byte of
/// each pixel.
pub open spec fn alpha_channel(pixels: Seq<u8>) -> Seq<u8> {
    Seq::new(pixels.len() / 4, |k: int| pixels[4 * k + 3])
}

/// A box cut down to an image of the given size: its corner moved inside the
/// image and its sides shortened to end at the image's edges.
pub open spec fn clamped_box(width: int, height: int, b: PixelBox) -> PixelBox {
    let x = if b.x < width { b.x as int } else { width };
    let y = if b.y < height { b.y as int } else { height };
    PixelBox {
        x: x as u32,
        y: y as u32,
        width: (if b.width < width - x { b.width as int } else { width - x }) as u32,
        height: (if b.height < height - y { b.height as int } else { height - y }) as u32,
    }
}

/// The RGBA bytes, row by row, of the part of an RGBA image (given byte by
/// byte, `width` pixels wide) inside the box `c`.
pub open spec fn cut_out(pixels: Seq<u8>, width: int, c: PixelBox) -> Seq<u8> {
    Seq::new(
        (c.width * c.height * 4) as nat,
        |k: int| pixels[((c.y + (k / 4) / (c.width as int)) * width + c.x + (k / 4) % (c.width as int)) * 4 + k % 4],
    )
}

/// `image::imageops::crop_imm` on the RGBA image with the given size and bytes,
/// turned back into bytes with `to_image` and `into_raw`: the box is first cut
/// down to the image (see `clamped_box`), and the bytes of the pixels inside it
/// are given row by row.
#[verifier::external_body]
fn crop_rgba(pixels: Vec<u8>, width: u32, height: u32, b: PixelBox) -> (res: Vec<u8>)
    requires
        pixels@.len() == width * height * 4,
    ensures
        res@ == cut_out(pixels@, width as int, clamped_box(width as int, height as int, b)),
{
    match image::RgbaImage::from_raw(width, height, pixels) {
        Some(img) => image::imageops::crop_imm(&img, b.x, b.y, b.width, b.height).to_image().into_raw(),
        None => Vec::new(),
    }
}

/// An image with its see-through border cut away: where the part kept was in
/// the image, its size, and its RGBA bytes row by row.
pub struct Trimmed {
    pub x: u32,
    pub y: u32,
    pub width: u32,
    pub height: u32,
    pub pixels: Vec<u8>,
}

/// The alpha values of an RGBA image given byte by byte.
fn alpha_of(pixels: &Vec<u8>) -> (res: Vec<u8>)
    requires
        pixels@.len() % 4 == 0,
    ensures
        res@ == alpha_channel(pixels@),
{
    let len = pixels.len();
    let n = len / 4;
    assert(4 * n == len);
    let mut res: Vec<u8> = Vec::new();
    let mut k: usize = 0;
    while k < n
        invariant
            len == pixels@.len(),
            n == pixels@.len() / 4,
            4 * n == len,
            k <= n,
            res@.len() == k,
            forall|m: int| 0 <= m < k ==> #[trigger] res@[m] == pixels@[4 * m + 3],
        decreases n - k,
    {
        res.push(pixels[4 * k + 3]);
        k = k + 1;
    }
    proof {
        assert(res@ =~= alpha_channel(pixels@));
    }
    res
}

/// Cuts away the border of an RGBA image (given by its size and its bytes row
/// by row) where every pixel is fully transparent, keeping the smallest box
/// around the other pixels. An image with no such pixel becomes an empty image
/// placed at the corner.
pub fn remove_alpha(width: u32, height: u32, pixels: Vec<u8>) -> (res: Trimmed)
    requires
        pixels@.len() == width * height * 4,
    ensures
        has_opaque(alpha_channel(pixels@), width as int, height as int) ==> {
            &&& is_opaque_bound(
                alpha_channel(pixels@),
                width as int,
                height as int,
                PixelBox { x: res.x, y: res.y, width: res.width, height: res.height },
            )
            &&& res.pixels@ == cut_out(
                pixels@,
                width as int,
                PixelBox { x: res.x, y: res.y, width: res.width, height: res.height },
            )
        },
        !has_opaque(alpha_channel(pixels@), width as int, height as int) ==> res.x == 0 && res.y == 0
            && res.width == 0 && res.height == 0 && res.pixels@.len() == 0,
{
    proof {
        assert(pixels@.len() % 4 == 0 && pixels@.len() / 4 == width * height) by (nonlinear_arith)
            requires
                pixels@.len() == width * height * 4,
        ;
    }
    let alpha = alpha_of(&pixels);
    match alpha_bounds(width, height, &alpha) {
        Some(b) => {
            let ghost c = clamped_box(width as int, height as int, b);
            let cut = crop_rgba(pixels, width, height, b);
            if width == 0 && height == 0 {
                proof {
                    assert(c.width == 0);
                }
                Trimmed { x: 0, y: 0, width: 0, height: 0, pixels: cut }
            } else {
                proof {
                    assert(c == b);
                }
                Trimmed { x: b.x, y: b.y, width: b.width, height: b.height, pixels: cut }
            }
        },
        None => Trimmed { x: 0, y: 0, width: 0, height: 0, pixels: Vec::new() },
    }
}

} // verus!
