//! RGBA frame images and the horizontal strip that an atlas texture is made of.
use vstd::prelude::*;

verus! {

/// A decoded RGBA8 image: `pixels` holds four bytes per pixel, row by row.
pub struct RgbaFrame {
    pub width: u32,
    pub height: u32,
    pub pixels: Vec<u8>,
}

impl RgbaFrame {
    /// The pixel buffer has exactly four bytes for each pixel.
    pub open spec fn wf(self) -> bool {
        self.pixels@.len() == self.width * self.height * 4
    }

    /// Channel `c` (0..4, RGBA) of the pixel at column `x`, row `y`.
    pub open spec fn channel(self, x: int, y: int, c: int) -> u8 {
        self.pixels@[(y * self.width + x) * 4 + c]
    }
}

/// `atlas` is `frames` (each `tile_w` x `tile_h`) placed side by side, frame
/// `k` starting at column `k * tile_w`.
pub open spec fn is_strip_of(atlas: RgbaFrame, frames: Seq<RgbaFrame>, tile_w: u32, tile_h: u32) -> bool {
    &&& atlas.wf()
    &&& atlas.width == tile_w * frames.len()
    &&& atlas.height == tile_h
    &&& forall|k: int, dx: int, y: int, c: int|
        0 <= k < frames.len() && 0 <= dx < tile_w && 0 <= y < tile_h && 0 <= c < 4
            ==> atlas.channel(k * tile_w + dx, y, c) == #[trigger] frames[k].channel(dx, y, c)
}

/// An all-zero (transparent black) image, made with `image::RgbaImage::new`.
#[verifier::external_body]
fn blank_image(width: u32, height: u32) -> (r: RgbaFrame)
    requires
        width * height * 4 <= usize::MAX,
    ensures
        r.width == width,
        r.height == height,
        r.wf(),
        forall|x: int, y: int, c: int|
            0 <= x < width && 0 <= y < height && 0 <= c < 4 ==> #[trigger] r.channel(x, y, c)
                == 0,
{
    let image = image::RgbaImage::new(width, height);
    RgbaFrame { width, height, pixels: image.into_raw() }
}

/// Copies `frame` onto `atlas` with its top-left corner at column `x`, row 0,
/// through `image::imageops::replace`.
#[verifier::external_body]
fn paste(atlas: &mut RgbaFrame, frame: &RgbaFrame, x: u32)
    requires
        old(atlas).wf(),
        frame.wf(),
        x + frame.width <= old(atlas).width,
        frame.height <= old(atlas).height,
    ensures
        final(atlas).width == old(atlas).width,
        final(atlas).height == old(atlas).height,
        final(atlas).wf(),
        forall|px: int, py: int, c: int|
            0 <= px < old(atlas).width && 0 <= py < old(atlas).height && 0 <= c < 4
                ==> #[trigger] final(atlas).channel(px, py, c) == if x <= px < x + frame.width
                && py < frame.height {
                frame.channel(px - x, py, c)
            } else {
                old(atlas).channel(px, py, c)
            },
{
    let buffer = std::mem::take(&mut atlas.pixels);
    let mut bottom = image::RgbaImage::from_raw(atlas.width, atlas.height, buffer).unwrap();
    let top = image::ImageBuffer::<image::Rgba<u8>, &[u8]>::from_raw(
        frame.width,
        frame.height,
        frame.pixels.as_slice(),
    ).unwrap();
    image::imageops::replace(&mut bottom, &top, x as i64, 0);
    atlas.pixels = bottom.into_raw();
}

proof fn lemma_tile_before(k: int, dx: int, i: int, w: int)
    requires
        0 <= k < i,
        0 <= dx < w,
    ensures
        k * w + dx < i * w,
        0 <= k * w + dx,
{
    assert(k * w + dx < i * w) by (nonlinear_arith)
        requires
            0 <= k < i,
            0 <= dx < w,
    ;
    assert(0 <= k * w) by (nonlinear_arith)
        requires
            0 <= k,
            0 <= w,
    ;
}

/// Places `frames` side by side into one image of `tile_w * frames.len()`
/// by `tile_h` pixels.
pub fn compose_atlas(tile_w: u32, tile_h: u32, frames: &Vec<RgbaFrame>) -> (atlas: RgbaFrame)
    requires
        tile_w * frames@.len() <= u32::MAX,
        tile_w * frames@.len() * tile_h * 4 <= usize::MAX,
        forall|k: int|
            0 <= k < frames@.len() ==> (#[trigger] frames@[k]).wf() && frames@[k].width == tile_w
                && frames@[k].height == tile_h,
    ensures
        is_strip_of(atlas, frames@, tile_w, tile_h),
{
    let n = frames.len();
    let width: u32 = (tile_w as u64 * n as u64) as u32;
    let mut atlas = blank_image(width, tile_h);
    let mut i: usize = 0;
    while i < n
        invariant
            n == frames@.len(),
            width == tile_w * n,
            i <= n,
            atlas.wf(),
            atlas.width == width,
            atlas.height == tile_h,
            forall|k: int|
                0 <= k < frames@.len() ==> (#[trigger] frames@[k]).wf() && frames@[k].width
                    == tile_w && frames@[k].height == tile_h,
            forall|k: int, dx: int, y: int, c: int|
                0 <= k < i && 0 <= dx < tile_w && 0 <= y < tile_h && 0 <= c < 4
                    ==> atlas.channel(k * tile_w + dx, y, c) == #[trigger] frames@[k].channel(
                    dx,
                    y,
                    c,
                ),
            forall|px: int, y: int, c: int|
                i * tile_w <= px < width && 0 <= y < tile_h && 0 <= c < 4
                    ==> #[trigger] atlas.channel(px, y, c) == 0,
        decreases n - i,
    {
        proof {
            assert(i * tile_w + tile_w <= n * tile_w) by (nonlinear_arith)
                requires
                    i < n,
            ;
            assert((i + 1) * tile_w == i * tile_w + tile_w) by (nonlinear_arith);
        }
        let x: u32 = (i as u64 * tile_w as u64) as u32;
        let ghost before = atlas;
        paste(&mut atlas, &frames[i], x);
        proof {
            assert forall|k: int, dx: int, y: int, c: int|
                0 <= k < i + 1 && 0 <= dx < tile_w && 0 <= y < tile_h && 0 <= c < 4 implies atlas.channel(
                k * tile_w + dx,
                y,
                c,
            ) == #[trigger] frames@[k].channel(dx, y, c) by {
                if k < i {
                    lemma_tile_before(k, dx, i as int, tile_w as int);
                    assert(before.channel(k * tile_w + dx, y, c) == frames@[k].channel(dx, y, c));
                } else {
                    assert(k * tile_w == x);
                }
            }
            assert forall|px: int, y: int, c: int|
                (i + 1) * tile_w <= px < width && 0 <= y < tile_h && 0 <= c < 4 implies #[trigger] atlas.channel(
                px,
                y,
                c,
            ) == 0 by {
                assert(before.channel(px, y, c) == 0);
            }
        }
        i = i + 1;
    }
    atlas
}

} // verus!
