//! A 2D grid of colors in row-major order with a background color and a
//! current drawing color. All pixel state lives here; drawing, encoding and
//! the automaton operate through it.

use vstd::prelude::*;

use crate::color::{color_of_hex, Color};

verus! {

/// A pixel buffer of `width * height` colors, row-major with (0, 0) at the
/// top left, plus the background color used by `clear` and the current
/// color used by `point`.
pub struct Framebuffer {
    pub width: usize,
    pub height: usize,
    pub buffer: Vec<Color>,
    pub background_color: Color,
    pub current_color: Color,
}

/// The buffer after a bounds-checked write of `color` at (x, y): updated at
/// the row-major index when (x, y) is inside the `w` by `h` grid, unchanged
/// otherwise.
pub open spec fn write_pixel(
    buf: Seq<Color>,
    w: int,
    h: int,
    x: int,
    y: int,
    color: Color,
) -> Seq<Color> {
    if 0 <= x < w && 0 <= y < h {
        buf.update(y * w + x, color)
    } else {
        buf
    }
}

/// A row-major index stays inside a `w` by `h` grid.
pub proof fn lemma_row_major_bound(x: int, y: int, w: int, h: int)
    by (nonlinear_arith)
    requires
        0 <= x < w,
        0 <= y < h,
    ensures
        0 <= y * w + x < w * h,
{
}

/// Distinct in-bounds coordinates have distinct row-major indices.
pub proof fn lemma_row_major_injective(x1: int, y1: int, x2: int, y2: int, w: int)
    by (nonlinear_arith)
    requires
        0 <= x1 < w,
        0 <= x2 < w,
        0 <= y1,
        0 <= y2,
        (x1, y1) != (x2, y2),
    ensures
        y1 * w + x1 != y2 * w + x2,
{
}

/// A row-major index decomposes back into its coordinates.
pub proof fn lemma_row_major_coords(x: int, y: int, w: int)
    requires
        0 <= x < w,
        0 <= y,
    ensures
        (y * w + x) % w == x,
        (y * w + x) / w == y,
{
    vstd::arithmetic::div_mod::lemma_fundamental_div_mod_converse(y * w + x, w, y, x);
}

impl Framebuffer {
    /// Well-formedness: positive dimensions and a buffer of exactly
    /// `width * height` cells. Established at construction and preserved by
    /// every operation; the dimensions never change afterwards.
    pub open spec fn wf(&self) -> bool {
        &&& self.width > 0
        &&& self.height > 0
        &&& self.buffer.len() == self.width * self.height
    }

    /// True when (x, y) addresses a cell of this buffer.
    pub open spec fn in_bounds(&self, x: int, y: int) -> bool {
        0 <= x < self.width && 0 <= y < self.height
    }

    /// Builds a buffer with every pixel black, a black background and
    /// white as the current drawing color.
    pub fn new(width: usize, height: usize) -> (fb: Framebuffer)
        requires
            width >= 1,
            height >= 1,
            width * height <= usize::MAX,
        ensures
            fb.wf(),
            fb.width == width,
            fb.height == height,
            forall|i: int| 0 <= i < fb.buffer.len() ==> fb.buffer[i] == (Color {
                r: 0,
                g: 0,
                b: 0,
            }),
            fb.background_color == (Color { r: 0, g: 0, b: 0 }),
            fb.current_color == (Color { r: 255, g: 255, b: 255 }),
    {
        let background_color = Color::new(0, 0, 0);
        let n = width * height;
        let mut buffer: Vec<Color> = Vec::new();
        let mut i: usize = 0;
        while i < n
            invariant
                i <= n,
                buffer.len() == i,
                forall|j: int| 0 <= j < i ==> buffer[j] == background_color,
            decreases n - i,
        {
            buffer.push(background_color);
            i = i + 1;
        }
        Framebuffer {
            width,
            height,
            buffer,
            background_color,
            current_color: Color::new(255, 255, 255),
        }
    }

    /// Sets every pixel to the background color.
    pub fn clear(&mut self)
        requires
            old(self).wf(),
        ensures
            final(self).wf(),
            final(self).width == old(self).width,
            final(self).height == old(self).height,
            final(self).background_color == old(self).background_color,
            final(self).current_color == old(self).current_color,
            final(self).buffer.len() == old(self).buffer.len(),
            forall|i: int|
                0 <= i < final(self).buffer.len() ==> final(self).buffer[i] == final(self).background_color,
    {
        let n = self.buffer.len();
        let mut i: usize = 0;
        while i < n
            invariant
                i <= n,
                self.buffer.len() == n,
                self.width == old(self).width,
                self.height == old(self).height,
                self.background_color == old(self).background_color,
                self.current_color == old(self).current_color,
                forall|j: int| 0 <= j < i ==> self.buffer[j] == self.background_color,
            decreases n - i,
        {
            let bg = self.background_color;
            self.buffer[i] = bg;
            i = i + 1;
        }
    }

    /// Writes the current drawing color at (x, y) when that lies inside
    /// the grid; outside, a silent no-op, never an error.
    pub fn point(&mut self, x: isize, y: isize)
        requires
            old(self).wf(),
        ensures
            final(self).wf(),
            final(self).width == old(self).width,
            final(self).height == old(self).height,
            final(self).background_color == old(self).background_color,
            final(self).current_color == old(self).current_color,
            final(self).buffer@ == write_pixel(
                old(self).buffer@,
                old(self).width as int,
                old(self).height as int,
                x as int,
                y as int,
                old(self).current_color,
            ),
            !old(self).in_bounds(x as int, y as int) ==> *final(self) == *old(self),
    {
        let color = self.current_color;
        self.set_pixel(x, y, color);
    }

    /// The pixel's color when (x, y) is inside the grid, `None` otherwise.
    pub fn get_point(&self, x: isize, y: isize) -> (r: Option<Color>)
        requires
            self.wf(),
        ensures
            r == if self.in_bounds(x as int, y as int) {
                Some(self.buffer[y as int * self.width + x as int])
            } else {
                None::<Color>
            },
    {
        if x >= 0 && y >= 0 && (x as usize) < self.width && (y as usize) < self.height {
            proof {
                lemma_row_major_bound(x as int, y as int, self.width as int, self.height as int);
            }
            let index = (y as usize) * self.width + (x as usize);
            Some(self.buffer[index])
        } else {
            None
        }
    }

    /// Replaces the background color with the one decoded from `hex_color`.
    pub fn set_background_color(&mut self, hex_color: u32)
        ensures
            *final(self) == (Framebuffer {
                background_color: color_of_hex(hex_color),
                ..*old(self)
            }),
    {
        self.background_color = Color::from_hex(hex_color);
    }

    /// Replaces the current drawing color with the one decoded from
    /// `hex_color`.
    pub fn set_current_color(&mut self, hex_color: u32)
        ensures
            *final(self) == (Framebuffer { current_color: color_of_hex(hex_color), ..*old(self) }),
    {
        self.current_color = Color::from_hex(hex_color);
    }

    /// Writes `color` at (x, y) when that lies inside the grid; outside,
    /// a silent no-op, never an error.
    pub fn set_pixel(&mut self, x: isize, y: isize, color: Color)
        requires
            old(self).wf(),
        ensures
            final(self).wf(),
            final(self).width == old(self).width,
            final(self).height == old(self).height,
            final(self).background_color == old(self).background_color,
            final(self).current_color == old(self).current_color,
            final(self).buffer@ == write_pixel(
                old(self).buffer@,
                old(self).width as int,
                old(self).height as int,
                x as int,
                y as int,
                color,
            ),
            !old(self).in_bounds(x as int, y as int) ==> *final(self) == *old(self),
    {
        if x >= 0 && y >= 0 && (x as usize) < self.width && (y as usize) < self.height {
            proof {
                lemma_row_major_bound(x as int, y as int, self.width as int, self.height as int);
            }
            let index = (y as usize) * self.width + (x as usize);
            if index < self.buffer.len() {
                self.buffer[index] = color;
            }
        }
    }

    /// One 32-bit word per pixel in row-major order: alpha 255 in the top
    /// byte, then red, green, blue. Read-only; for an external presentation
    /// layer.
    pub fn as_u32_buffer(&self) -> (v: Vec<u32>)
        requires
            self.wf(),
        ensures
            v.len() == self.buffer.len(),
            forall|i: int|
                0 <= i < v.len() ==> v[i] == ((255u32 << 24) | ((#[trigger] self.buffer[i].r
                    as u32) << 16) | ((self.buffer[i].g as u32) << 8) | (self.buffer[i].b as u32)),
    {
        let n = self.buffer.len();
        let mut v: Vec<u32> = Vec::new();
        let mut i: usize = 0;
        while i < n
            invariant
                i <= n,
                n == self.buffer.len(),
                v.len() == i,
                forall|j: int|
                    0 <= j < i ==> v[j] == ((255u32 << 24) | ((#[trigger] self.buffer[j].r
                        as u32) << 16) | ((self.buffer[j].g as u32) << 8) | (self.buffer[j].b
                        as u32)),
            decreases n - i,
        {
            let c = self.buffer[i];
            v.push((255u32 << 24) | ((c.r as u32) << 16) | ((c.g as u32) << 8) | (c.b as u32));
            i = i + 1;
        }
        v
    }
}

/// Paints a fixed demonstration scene: a dark blue background with one
/// light pixel at (20, 40).
pub fn render(fb: &mut Framebuffer)
    requires
        old(fb).wf(),
    ensures
        final(fb).wf(),
        final(fb).width == old(fb).width,
        final(fb).height == old(fb).height,
        final(fb).background_color == color_of_hex(0x333355),
        final(fb).current_color == color_of_hex(0xFFDDDD),
        final(fb).buffer@ == write_pixel(
            Seq::new(old(fb).buffer@.len(), |i: int| color_of_hex(0x333355)),
            old(fb).width as int,
            old(fb).height as int,
            20,
            40,
            color_of_hex(0xFFDDDD),
        ),
{
    fb.set_background_color(0x333355);
    fb.clear();
    fb.set_current_color(0xFFDDDD);
    let ghost cleared = fb.buffer@;
    fb.point(20, 40);
    proof {
        assert(cleared =~= Seq::new(old(fb).buffer@.len(), |i: int| color_of_hex(0x333355)));
    }
}

} // verus!
