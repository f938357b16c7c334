//! Byte-exact encoding of a pixel grid as an uncompressed 24-bit bitmap
//! file: a 14-byte file header, a 40-byte info header and raw pixel bytes
//! in blue, green, red order. Rows deliberately carry no 4-byte padding,
//! so readers that insist on the canonical row alignment only see correct
//! images when `width * 3` is already a multiple of four.

use vstd::prelude::*;

use crate::color::Color;
use crate::framebuffer::{lemma_row_major_bound, lemma_row_major_injective, Framebuffer};

verus! {

/// The four little-endian bytes of a 32-bit value.
pub open spec fn le_bytes32(v: u32) -> Seq<u8> {
    seq![
        (v & 0xFF) as u8,
        ((v >> 8) & 0xFF) as u8,
        ((v >> 16) & 0xFF) as u8,
        ((v >> 24) & 0xFF) as u8,
    ]
}

/// The 14-byte bitmap file header: the "BM" signature, the little-endian
/// total file size, four reserved zero bytes and the pixel-data offset 54.
pub open spec fn bmp_file_header(file_size: u32) -> Seq<u8> {
    seq![0x42u8, 0x4Du8] + le_bytes32(file_size) + seq![0u8, 0u8, 0u8, 0u8] + le_bytes32(54)
}

/// The 40-byte info header: header size 40, signed little-endian width and
/// height, one plane, 24 bits per pixel, no compression, the pixel byte
/// count, and zeroed resolution and palette fields.
pub open spec fn bmp_info_header(width: u32, height: u32, image_size: u32) -> Seq<u8> {
    le_bytes32(40) + le_bytes32(width) + le_bytes32(height) + seq![1u8, 0u8, 24u8, 0u8]
        + le_bytes32(0) + le_bytes32(image_size) + le_bytes32(0) + le_bytes32(0) + le_bytes32(0)
        + le_bytes32(0)
}

/// The whole bitmap file for the given dimensions and pixel bytes.
pub open spec fn bmp_file_bytes(width: u32, height: u32, data: Seq<u8>) -> Seq<u8> {
    bmp_file_header((54 + data.len()) as u32) + bmp_info_header(width, height, data.len() as u32)
        + data
}

/// A pixel grid flattened to three bytes per pixel, row-major, each pixel
/// as blue, then green, then red.
pub struct Bitmap {
    pub width: u32,
    pub height: u32,
    pub data: Vec<u8>,
}

impl Bitmap {
    /// Well-formedness: exactly three bytes for each of the
    /// `width * height` pixels.
    pub open spec fn wf(&self) -> bool {
        self.data.len() == self.width * self.height * 3
    }

    /// Builds an all-zero pixel byte grid.
    pub fn new(width: u32, height: u32) -> (bm: Bitmap)
        requires
            width * height * 3 <= usize::MAX,
        ensures
            bm.wf(),
            bm.width == width,
            bm.height == height,
            forall|i: int| 0 <= i < bm.data.len() ==> bm.data[i] == 0u8,
    {
        proof {
            assert(0 <= width * height && width * height <= width * height * 3)
                by (nonlinear_arith);
        }
        let n: usize = (width as usize) * (height as usize) * 3;
        let mut data: Vec<u8> = Vec::new();
        let mut i: usize = 0;
        while i < n
            invariant
                i <= n,
                data.len() == i,
                forall|j: int| 0 <= j < i ==> data[j] == 0u8,
            decreases n - i,
        {
            data.push(0u8);
            i = i + 1;
        }
        Bitmap { width, height, data }
    }

    /// Writes one pixel's blue, green and red bytes at (x, y) when that
    /// lies inside the grid; outside, a silent no-op.
    pub fn set_pixel(&mut self, x: u32, y: u32, color: (u8, u8, u8))
        requires
            old(self).wf(),
        ensures
            final(self).wf(),
            final(self).width == old(self).width,
            final(self).height == old(self).height,
            x < old(self).width && y < old(self).height ==> final(self).data@ == old(
                self,
            ).data@.update((y * old(self).width + x) * 3, color.2).update(
                (y * old(self).width + x) * 3 + 1,
                color.1,
            ).update((y * old(self).width + x) * 3 + 2, color.0),
            !(x < old(self).width && y < old(self).height) ==> *final(self) == *old(self),
    {
        if x >= self.width || y >= self.height {
            return ;
        }
        proof {
            lemma_row_major_bound(x as int, y as int, self.width as int, self.height as int);
            assert((y * self.width + x) * 3 + 2 < self.width * self.height * 3)
                by (nonlinear_arith)
                requires
                    y * self.width + x < self.width * self.height,
            ;
        }
        let index: usize = ((y as usize) * (self.width as usize) + (x as usize)) * 3;
        self.data[index] = color.2;
        self.data[index + 1] = color.1;
        self.data[index + 2] = color.0;
    }

    /// Produces the complete bitmap file: file header, info header, then
    /// the pixel bytes, exactly as `bmp_file_bytes` lays them out.
    pub fn encode(&self) -> (out: Vec<u8>)
        requires
            self.wf(),
            self.data.len() + 54 <= u32::MAX,
        ensures
            out@ == bmp_file_bytes(self.width, self.height, self.data@),
            out.len() == 54 + self.data.len(),
    {
        let file_size: u32 = 54 + self.data.len() as u32;
        let image_size: u32 = self.data.len() as u32;
        let mut out: Vec<u8> = Vec::new();
        out.push(0x42);
        out.push(0x4D);
        push_le32(&mut out, file_size);
        out.push(0);
        out.push(0);
        out.push(0);
        out.push(0);
        push_le32(&mut out, 54);
        push_le32(&mut out, 40);
        push_le32(&mut out, self.width);
        push_le32(&mut out, self.height);
        out.push(1);
        out.push(0);
        out.push(24);
        out.push(0);
        push_le32(&mut out, 0);
        push_le32(&mut out, image_size);
        push_le32(&mut out, 0);
        push_le32(&mut out, 0);
        push_le32(&mut out, 0);
        push_le32(&mut out, 0);
        proof {
            assert(out@ =~= bmp_file_header(file_size) + bmp_info_header(
                self.width,
                self.height,
                image_size,
            ));
        }
        let ghost headers = out@;
        let n = self.data.len();
        let mut i: usize = 0;
        while i < n
            invariant
                i <= n,
                n == self.data.len(),
                out@ == headers + self.data@.subrange(0, i as int),
            decreases n - i,
        {
            out.push(self.data[i]);
            proof {
                assert(self.data@.subrange(0, i + 1) =~= self.data@.subrange(0, i as int).push(
                    self.data@[i as int],
                ));
                assert(out@ =~= headers + self.data@.subrange(0, i + 1));
            }
            i = i + 1;
        }
        proof {
            assert(self.data@.subrange(0, n as int) =~= self.data@);
            assert(out@ =~= bmp_file_bytes(self.width, self.height, self.data@));
        }
        out
    }
}

/// Appends the four little-endian bytes of `v`.
fn push_le32(out: &mut Vec<u8>, v: u32)
    ensures
        final(out)@ == old(out)@ + le_bytes32(v),
{
    out.push((v & 0xFF) as u8);
    out.push(((v >> 8) & 0xFF) as u8);
    out.push(((v >> 16) & 0xFF) as u8);
    out.push(((v >> 24) & 0xFF) as u8);
    proof {
        assert(out@ =~= old(out)@ + le_bytes32(v));
    }
}

impl Framebuffer {
    /// Renders the buffer into a `Bitmap`: the bottom row of the grid is
    /// emitted first (row `height - 1 - y` of the bitmap holds buffer row
    /// `y`), each pixel as blue, green, red.
    pub fn render_buffer(&self) -> (bm: Bitmap)
        requires
            self.wf(),
            self.width * self.height * 3 <= usize::MAX,
            self.width <= 0x7FFF_FFFF,
            self.height <= 0x7FFF_FFFF,
        ensures
            bm.wf(),
            bm.width == self.width,
            bm.height == self.height,
            forall|x: int, y: int|
                0 <= x < self.width && 0 <= y < self.height ==> {
                    let cell = #[trigger] self.buffer[y * self.width + x];
                    let base = ((self.height - 1 - y) * self.width + x) * 3;
                    &&& bm.data[base] == cell.b
                    &&& bm.data[base + 1] == cell.g
                    &&& bm.data[base + 2] == cell.r
                },
    {
        let mut bm = Bitmap::new(self.width as u32, self.height as u32);
        let w = self.width;
        let h = self.height;
        let mut y: usize = 0;
        while y < h
            invariant
                y <= h,
                w == self.width,
                h == self.height,
                self.wf(),
                bm.wf(),
                bm.width == w,
                bm.height == h,
                forall|px: int, py: int|
                    0 <= px < w && 0 <= py < y ==> {
                        let cell = #[trigger] self.buffer[py * w + px];
                        let base = ((h - 1 - py) * w + px) * 3;
                        &&& bm.data[base] == cell.b
                        &&& bm.data[base + 1] == cell.g
                        &&& bm.data[base + 2] == cell.r
                    },
            decreases h - y,
        {
            let inverted_y = h - y - 1;
            let mut x: usize = 0;
            while x < w
                invariant
                    x <= w,
                    y < h,
                    inverted_y == h - 1 - y,
                    w == self.width,
                    h == self.height,
                    self.wf(),
                    bm.wf(),
                    bm.width == w,
                    bm.height == h,
                    forall|px: int, py: int|
                        0 <= px < w && 0 <= py < y ==> {
                            let cell = #[trigger] self.buffer[py * w + px];
                            let base = ((h - 1 - py) * w + px) * 3;
                            &&& bm.data[base] == cell.b
                            &&& bm.data[base + 1] == cell.g
                            &&& bm.data[base + 2] == cell.r
                        },
                    forall|px: int|
                        0 <= px < x ==> {
                            let cell = #[trigger] self.buffer[y * w + px];
                            let base = ((h - 1 - y) * w + px) * 3;
                            &&& bm.data[base] == cell.b
                            &&& bm.data[base + 1] == cell.g
                            &&& bm.data[base + 2] == cell.r
                        },
                decreases w - x,
            {
                proof {
                    lemma_row_major_bound(x as int, y as int, w as int, h as int);
                }
                let cell = self.buffer[y * w + x];
                let ghost prev = bm.data@;
                bm.set_pixel(x as u32, inverted_y as u32, (cell.r, cell.g, cell.b));
                proof {
                    lemma_row_major_bound(x as int, inverted_y as int, w as int, h as int);
                    assert forall|px: int, py: int| 0 <= px < w && 0 <= py < y implies {
                        let cell = #[trigger] self.buffer[py * w + px];
                        let base = ((h - 1 - py) * w + px) * 3;
                        &&& bm.data[base] == cell.b
                        &&& bm.data[base + 1] == cell.g
                        &&& bm.data[base + 2] == cell.r
                    } by {
                        lemma_row_major_bound(px, h - 1 - py, w as int, h as int);
                        lemma_row_major_injective(
                            px,
                            h - 1 - py,
                            x as int,
                            h - 1 - y as int,
                            w as int,
                        );
                    }
                    assert forall|px: int| 0 <= px < x implies {
                        let cell = #[trigger] self.buffer[y as int * w + px];
                        let base = ((h - 1 - y as int) * w + px) * 3;
                        &&& bm.data[base] == cell.b
                        &&& bm.data[base + 1] == cell.g
                        &&& bm.data[base + 2] == cell.r
                    } by {
                        lemma_row_major_bound(px, h - 1 - y as int, w as int, h as int);
                        lemma_row_major_injective(
                            px,
                            h - 1 - y as int,
                            x as int,
                            h - 1 - y as int,
                            w as int,
                        );
                    }
                }
                x = x + 1;
            }
            y = y + 1;
        }
        bm
    }
}

} // verus!
