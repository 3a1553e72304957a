//! The software frame buffer the scene runtime draws into, and script
//! state.
use vstd::prelude::*;

use crate::image_decoder::DecodedImage;

verus! {

/// Script execution state.
#[derive(Debug)]
pub struct ScriptState {
    /// Script name.
    pub name: String,
    /// Whether the script is running.
    pub active: bool,
    /// Program counter.
    pub pc: u32,
}

/// An RGBA frame buffer, four bytes per pixel, row-major.
#[derive(Debug)]
pub struct FrameBuffer {
    /// Width in pixels.
    pub width: u32,
    /// Height in pixels.
    pub height: u32,
    /// Pixel data (RGBA).
    pub data: Vec<u8>,
}

/// Byte index of pixel (`x`, `y`) in a buffer `width` pixels wide.
pub open spec fn spec_pixel_index(width: int, x: int, y: int) -> int {
    (y * width + x) * 4
}

/// Whether pixel (`x`, `y`) is inside the frame and its four bytes are in
/// the data.
pub open spec fn spec_pixel_present(width: u32, height: u32, len: int, x: u32, y: u32) -> bool {
    x < width && y < height && spec_pixel_index(width as int, x as int, y as int) + 4 <= len
}

/// The data after setting pixel (`x`, `y`); pixels outside the frame or
/// past the data are ignored.
pub open spec fn spec_set_pixel(width: u32, height: u32, data: Seq<u8>, x: u32, y: u32, rgba: (u8, u8, u8, u8)) -> Seq<u8> {
    if spec_pixel_present(width, height, data.len() as int, x, y) {
        let i = spec_pixel_index(width as int, x as int, y as int);
        data.update(i, rgba.0).update(i + 1, rgba.1).update(i + 2, rgba.2).update(i + 3, rgba.3)
    } else {
        data
    }
}

/// The colour of pixel (`x`, `y`), transparent black outside the frame or
/// past the data.
pub open spec fn spec_get_pixel(width: u32, height: u32, data: Seq<u8>, x: u32, y: u32) -> (u8, u8, u8, u8) {
    if spec_pixel_present(width, height, data.len() as int, x, y) {
        let i = spec_pixel_index(width as int, x as int, y as int);
        (data[i], data[i + 1], data[i + 2], data[i + 3])
    } else {
        (0, 0, 0, 0)
    }
}

/// The pixel index of (`x`, `y`) fits the `u32` arithmetic that computes
/// it.
pub open spec fn spec_index_fits(width: u32, height: u32, x: u32, y: u32) -> bool {
    x < width && y < height ==> spec_pixel_index(width as int, x as int, y as int) <= u32::MAX
}

/// How many rows (or columns) of an image a blit walks: none when the
/// image dimension does not fit in `i32`.
pub open spec fn spec_blit_extent(height: u32) -> int {
    if height <= i32::MAX {
        height as int
    } else {
        0
    }
}

/// Where the image pixel drawn onto frame pixel (`dx`, `dy`) starts in the
/// image data, when one is drawn there: the pixel must lie in the image,
/// both pixels must be in their data, and its alpha must be non-zero.
pub open spec fn spec_blit_source(
    width: u32,
    frame_len: int,
    x: int,
    y: int,
    image_width: u32,
    image_height: u32,
    image: Seq<u8>,
    dx: int,
    dy: int,
) -> Option<int> {
    let sx = dx - x;
    let sy = dy - y;
    let src = spec_pixel_index(image_width as int, sx, sy);
    if 0 <= sx < spec_blit_extent(image_width) && 0 <= sy < spec_blit_extent(image_height) && src + 4 <= image.len()
        && spec_pixel_index(width as int, dx, dy) + 4 <= frame_len && image[src + 3] > 0 {
        Some(src)
    } else {
        None
    }
}

/// The arithmetic of a blit at (`x`, `y`) stays in range: destination
/// coordinates fit in `i32`, and image and frame indices fit in `u32`.
pub open spec fn spec_blit_fits(width: u32, height: u32, x: i32, y: i32, image_width: u32, image_height: u32) -> bool {
    let cols = spec_blit_extent(image_width);
    let rows = spec_blit_extent(image_height);
    &&& cols > 0 ==> x + cols - 1 <= i32::MAX
    &&& rows > 0 ==> y + rows - 1 <= i32::MAX
    &&& (image_width as int) * rows * 4 <= u32::MAX + 1
    &&& (width as int) * (height as int) * 4 <= u32::MAX + 1
}

proof fn lemma_index_bound(width: int, height: int, x: int, y: int)
    requires
        0 <= x < width,
        0 <= y < height,
        width * height * 4 <= u32::MAX + 1,
    ensures
        0 <= spec_pixel_index(width, x, y),
        spec_pixel_index(width, x, y) + 4 <= width * height * 4,
        spec_pixel_index(width, x, y) <= u32::MAX - 3,
{
    assert(0 <= y * width + x < width * height) by (nonlinear_arith)
        requires
            0 <= x < width,
            0 <= y < height,
    ;
}

proof fn lemma_index_unique(width: int, x1: int, y1: int, c1: int, x2: int, y2: int, c2: int)
    requires
        0 <= x1 < width,
        0 <= x2 < width,
        0 <= y1,
        0 <= y2,
        0 <= c1 < 4,
        0 <= c2 < 4,
        spec_pixel_index(width, x1, y1) + c1 == spec_pixel_index(width, x2, y2) + c2,
    ensures
        x1 == x2 && y1 == y2 && c1 == c2,
{
    assert(x1 == x2 && y1 == y2 && c1 == c2) by (nonlinear_arith)
        requires
            0 <= x1 < width,
            0 <= x2 < width,
            0 <= y1,
            0 <= y2,
            0 <= c1 < 4,
            0 <= c2 < 4,
            (y1 * width + x1) * 4 + c1 == (y2 * width + x2) * 4 + c2,
    ;
}

impl FrameBuffer {
    /// A black, fully transparent buffer of the given size.
    pub fn new(width: u32, height: u32) -> (res: Self)
        requires
            (width as int) * (height as int) * 4 <= u32::MAX,
        ensures
            res.width == width,
            res.height == height,
            res.data@ == Seq::new((width * height * 4) as nat, |i: int| 0u8),
    {
        let len = (width * height * 4) as usize;
        let mut data: Vec<u8> = Vec::new();
        let mut k: usize = 0;
        while k < len
            invariant
                k <= len,
                data@ =~= Seq::new(k as nat, |i: int| 0u8),
            decreases len - k,
        {
            data.push(0);
            k = k + 1;
        }
        FrameBuffer { width, height, data }
    }

    /// Set every byte to zero.
    pub fn clear(&mut self)
        ensures
            final(self).width == old(self).width,
            final(self).height == old(self).height,
            final(self).data@ == Seq::new(old(self).data@.len(), |i: int| 0u8),
    {
        let mut k: usize = 0;
        while k < self.data.len()
            invariant
                self.width == old(self).width,
                self.height == old(self).height,
                k <= self.data@.len(),
                self.data@.len() == old(self).data@.len(),
                forall|j: int| 0 <= j < k ==> #[trigger] self.data@[j] == 0,
            decreases self.data@.len() - k,
        {
            self.data.set(k, 0);
            k = k + 1;
        }
        assert(self.data@ =~= Seq::new(old(self).data@.len(), |i: int| 0u8));
    }

    /// Set pixel (`x`, `y`); pixels outside the frame are ignored.
    pub fn set_pixel(&mut self, x: u32, y: u32, r: u8, g: u8, b: u8, a: u8)
        requires
            spec_index_fits(old(self).width, old(self).height, x, y),
        ensures
            final(self).width == old(self).width,
            final(self).height == old(self).height,
            final(self).data@ == spec_set_pixel(old(self).width, old(self).height, old(self).data@, x, y, (r, g, b, a)),
    {
        if x < self.width && y < self.height {
            let idx = ((y * self.width + x) * 4) as usize;
            if idx <= self.data.len() && self.data.len() - idx >= 4 {
                self.data.set(idx, r);
                self.data.set(idx + 1, g);
                self.data.set(idx + 2, b);
                self.data.set(idx + 3, a);
            }
        }
    }

    /// The colour of pixel (`x`, `y`), or transparent black outside the
    /// frame.
    pub fn get_pixel(&self, x: u32, y: u32) -> (res: (u8, u8, u8, u8))
        requires
            spec_index_fits(self.width, self.height, x, y),
        ensures
            res == spec_get_pixel(self.width, self.height, self.data@, x, y),
    {
        if x < self.width && y < self.height {
            let idx = ((y * self.width + x) * 4) as usize;
            if idx <= self.data.len() && self.data.len() - idx >= 4 {
                return (self.data[idx], self.data[idx + 1], self.data[idx + 2], self.data[idx + 3]);
            }
        }
        (0, 0, 0, 0)
    }

    /// Draw an image with its top-left corner at (`x`, `y`): every image
    /// pixel with non-zero alpha that lands inside the frame replaces the
    /// frame pixel.
    pub fn blit(&mut self, x: i32, y: i32, image: &DecodedImage)
        requires
            spec_blit_fits(old(self).width, old(self).height, x, y, image.width, image.height),
        ensures
            final(self).width == old(self).width,
            final(self).height == old(self).height,
            final(self).data@.len() == old(self).data@.len(),
            forall|dx: int, dy: int, c: int|
                0 <= dx < old(self).width && 0 <= dy < old(self).height && 0 <= c < 4 && spec_pixel_index(
                    old(self).width as int,
                    dx,
                    dy,
                ) + c < old(self).data@.len() ==> #[trigger] final(self).data@[spec_pixel_index(old(self).width as int, dx, dy) + c]
                    == match spec_blit_source(
                    old(self).width,
                    old(self).data@.len() as int,
                    x as int,
                    y as int,
                    image.width,
                    image.height,
                    image.data@,
                    dx,
                    dy,
                ) {
                    Some(src) => image.data@[src + c],
                    None => old(self).data@[spec_pixel_index(old(self).width as int, dx, dy) + c],
                },
            forall|j: int|
                (old(self).width as int) * (old(self).height as int) * 4 <= j < old(self).data@.len()
                    ==> #[trigger] final(self).data@[j] == old(self).data@[j],
    {
        let ghost w = self.width as int;
        let ghost h = self.height as int;
        let ghost before = self.data@;
        let ghost frame_len = self.data@.len() as int;
        let rows: i32 = if image.height <= i32::MAX as u32 {
            image.height as i32
        } else {
            0
        };
        let cols: i32 = if image.width <= i32::MAX as u32 {
            image.width as i32
        } else {
            0
        };
        let mut sy: i32 = 0;
        while sy < rows
            invariant
                w == self.width,
                h == self.height,
                frame_len == self.data@.len(),
                frame_len == before.len(),
                spec_blit_fits(self.width, self.height, x, y, image.width, image.height),
                rows as int == spec_blit_extent(image.height),
                cols as int == spec_blit_extent(image.width),
                0 <= sy <= rows,
                forall|dx: int, dy: int, c: int|
                    0 <= dx < w && 0 <= dy < h && 0 <= c < 4 && spec_pixel_index(w, dx, dy) + c < frame_len
                        ==> #[trigger] self.data@[spec_pixel_index(w, dx, dy) + c] == if dy - y < sy {
                        match spec_blit_source(self.width, frame_len, x as int, y as int, image.width, image.height, image.data@, dx, dy) {
                            Some(src) => image.data@[src + c],
                            None => before[spec_pixel_index(w, dx, dy) + c],
                        }
                    } else {
                        before[spec_pixel_index(w, dx, dy) + c]
                    },
                forall|j: int| w * h * 4 <= j < frame_len ==> #[trigger] self.data@[j] == before[j],
            decreases rows - sy,
        {
            let mut sx: i32 = 0;
            while sx < cols
                invariant
                    w == self.width,
                    h == self.height,
                    frame_len == self.data@.len(),
                    frame_len == before.len(),
                    spec_blit_fits(self.width, self.height, x, y, image.width, image.height),
                    rows as int == spec_blit_extent(image.height),
                    cols as int == spec_blit_extent(image.width),
                    0 <= sy < rows,
                    0 <= sx <= cols,
                    forall|dx: int, dy: int, c: int|
                        0 <= dx < w && 0 <= dy < h && 0 <= c < 4 && spec_pixel_index(w, dx, dy) + c < frame_len
                            ==> #[trigger] self.data@[spec_pixel_index(w, dx, dy) + c] == if dy - y < sy || (dy - y
                            == sy && dx - x < sx) {
                            match spec_blit_source(self.width, frame_len, x as int, y as int, image.width, image.height, image.data@, dx, dy) {
                                Some(src) => image.data@[src + c],
                                None => before[spec_pixel_index(w, dx, dy) + c],
                            }
                        } else {
                            before[spec_pixel_index(w, dx, dy) + c]
                        },
                    forall|j: int| w * h * 4 <= j < frame_len ==> #[trigger] self.data@[j] == before[j],
                decreases cols - sx,
            {
                let dx = x + sx;
                let dy = y + sy;
                if dx >= 0 && dy >= 0 && (dx as u32) < self.width && (dy as u32) < self.height {
                    proof {
                        lemma_index_bound(w, h, dx as int, dy as int);
                        assert((sy as int) * (image.width as int) + (sx as int) < (image.width as int) * (rows as int))
                            by (nonlinear_arith)
                            requires
                                0 <= sx < image.width,
                                0 <= sy < rows,
                        ;
                        assert(0 <= (sy as int) * (image.width as int)) by (nonlinear_arith)
                            requires
                                0 <= sy,
                        ;
                    }
                    let src_idx = ((sy as u32 * image.width + sx as u32) * 4) as usize;
                    let dst_idx = ((dy as u32 * self.width + dx as u32) * 4) as usize;
                    if src_idx <= image.data.len() && image.data.len() - src_idx >= 4 && dst_idx <= self.data.len()
                        && self.data.len() - dst_idx >= 4 {
                        let alpha = image.data[src_idx + 3];
                        if alpha > 0 {
                            let ghost prior = self.data@;
                            self.data.set(dst_idx, image.data[src_idx]);
                            self.data.set(dst_idx + 1, image.data[src_idx + 1]);
                            self.data.set(dst_idx + 2, image.data[src_idx + 2]);
                            self.data.set(dst_idx + 3, alpha);
                            proof {
                                assert forall|ex: int, ey: int, c: int|
                                    0 <= ex < w && 0 <= ey < h && 0 <= c < 4 && spec_pixel_index(w, ex, ey) + c < frame_len
                                        && !(ex == dx && ey == dy) implies #[trigger] self.data@[spec_pixel_index(w, ex, ey) + c]
                                    == prior[spec_pixel_index(w, ex, ey) + c] by {
                                    let k = spec_pixel_index(w, ex, ey) + c;
                                    if k == dst_idx || k == dst_idx + 1 || k == dst_idx + 2 || k == dst_idx + 3 {
                                        lemma_index_unique(w, ex, ey, c, dx as int, dy as int, k - dst_idx);
                                    }
                                }
                                assert forall|c: int| 0 <= c < 4 implies #[trigger] self.data@[dst_idx + c] == image.data@[src_idx
                                    + c] by {
                                }
                            }
                        }
                    }
                }
                sx = sx + 1;
            }
            sy = sy + 1;
        }
    }
}

/// Setting a pixel and reading it back gives the colour that was set, when
/// the pixel is inside the frame and its bytes are in the data.
pub proof fn lemma_get_after_set(width: u32, height: u32, data: Seq<u8>, x: u32, y: u32, rgba: (u8, u8, u8, u8))
    requires
        spec_pixel_present(width, height, data.len() as int, x, y),
    ensures
        spec_get_pixel(width, height, spec_set_pixel(width, height, data, x, y, rgba), x, y) == rgba,
{
}

/// In a frame whose data holds exactly four bytes per pixel, every pixel
/// inside the frame has its bytes in the data.
pub proof fn lemma_full_frame_pixels_present(width: u32, height: u32, len: int, x: u32, y: u32)
    requires
        len == width * height * 4,
        x < width,
        y < height,
    ensures
        spec_pixel_present(width, height, len, x, y),
{
    assert((y * width + x) * 4 + 4 <= width * height * 4) by (nonlinear_arith)
        requires
            x < width,
            y < height,
    ;
}

/// A pixel outside the frame reads as transparent black, and setting it
/// leaves the data unchanged.
pub proof fn lemma_outside_pixel(width: u32, height: u32, data: Seq<u8>, x: u32, y: u32, rgba: (u8, u8, u8, u8))
    requires
        x >= width || y >= height,
    ensures
        spec_get_pixel(width, height, data, x, y) == (0u8, 0u8, 0u8, 0u8),
        spec_set_pixel(width, height, data, x, y, rgba) == data,
{
}

/// Setting a pixel leaves every other pixel as it was.
pub proof fn lemma_set_leaves_other_pixels(
    width: u32,
    height: u32,
    data: Seq<u8>,
    x: u32,
    y: u32,
    rgba: (u8, u8, u8, u8),
    ox: u32,
    oy: u32,
)
    requires
        ox != x || oy != y,
    ensures
        spec_get_pixel(width, height, spec_set_pixel(width, height, data, x, y, rgba), ox, oy) == spec_get_pixel(
            width,
            height,
            data,
            ox,
            oy,
        ),
{
    if spec_pixel_present(width, height, data.len() as int, x, y) && spec_pixel_present(
        width,
        height,
        data.len() as int,
        ox,
        oy,
    ) {
        let p = (y as int) * (width as int) + (x as int);
        let q = (oy as int) * (width as int) + (ox as int);
        if p == q {
            lemma_index_unique(width as int, x as int, y as int, 0, ox as int, oy as int, 0);
        }
        assert(spec_pixel_index(width as int, x as int, y as int) == 4 * p);
        assert(spec_pixel_index(width as int, ox as int, oy as int) == 4 * q);
    }
}

} // verus!
