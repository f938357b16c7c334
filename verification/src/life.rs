//! The cellular-automaton step. A cell is alive exactly when its pixel is
//! pure white; every generation is computed against one immutable snapshot
//! of the buffer and written into a fresh buffer, so no cell's update sees
//! another cell's already-updated state.

use vstd::prelude::*;

use crate::color::Color;
use crate::framebuffer::{lemma_row_major_bound, lemma_row_major_coords, Framebuffer};

verus! {

/// The color that marks a live cell.
pub open spec fn live_color() -> Color {
    Color { r: 255, g: 255, b: 255 }
}

/// The color a dying cell is written with.
pub open spec fn dead_color() -> Color {
    Color { r: 0, g: 0, b: 0 }
}

/// True when (x, y) lies on the `w` by `h` grid and holds the live color.
/// Coordinates off the grid count as dead: no wraparound, no reflection.
pub open spec fn cell_alive(buf: Seq<Color>, w: int, h: int, x: int, y: int) -> bool {
    0 <= x < w && 0 <= y < h && buf[y * w + x] == live_color()
}

/// The number of live cells among the eight Moore neighbors of (x, y).
pub open spec fn live_neighbor_count(buf: Seq<Color>, w: int, h: int, x: int, y: int) -> int {
    (if cell_alive(buf, w, h, x - 1, y - 1) {
        1int
    } else {
        0int
    }) + (if cell_alive(buf, w, h, x - 1, y) {
        1int
    } else {
        0int
    }) + (if cell_alive(buf, w, h, x - 1, y + 1) {
        1int
    } else {
        0int
    }) + (if cell_alive(buf, w, h, x, y - 1) {
        1int
    } else {
        0int
    }) + (if cell_alive(buf, w, h, x, y + 1) {
        1int
    } else {
        0int
    }) + (if cell_alive(buf, w, h, x + 1, y - 1) {
        1int
    } else {
        0int
    }) + (if cell_alive(buf, w, h, x + 1, y) {
        1int
    } else {
        0int
    }) + (if cell_alive(buf, w, h, x + 1, y + 1) {
        1int
    } else {
        0int
    })
}

/// The standard rule applied to the cell at (x, y): a live cell with fewer
/// than 2 or more than 3 live neighbors dies to pure black; a dead cell
/// with exactly 3 live neighbors is born pure white; every other cell
/// keeps its prior color.
pub open spec fn next_cell(buf: Seq<Color>, w: int, h: int, x: int, y: int) -> Color {
    let cell = buf[y * w + x];
    let n = live_neighbor_count(buf, w, h, x, y);
    if cell == live_color() {
        if n < 2 || n > 3 {
            dead_color()
        } else {
            cell
        }
    } else {
        if n == 3 {
            live_color()
        } else {
            cell
        }
    }
}

/// One whole generation: the rule applied to every cell of the snapshot.
pub open spec fn life_step(buf: Seq<Color>, w: int, h: int) -> Seq<Color> {
    Seq::new(buf.len(), |i: int| next_cell(buf, w, h, i % w, i / w))
}

/// `n` generations from the snapshot.
pub open spec fn life_steps(buf: Seq<Color>, w: int, h: int, n: nat) -> Seq<Color>
    decreases n,
{
    if n == 0 {
        buf
    } else {
        life_step(life_steps(buf, w, h, (n - 1) as nat), w, h)
    }
}

/// True when no cell of the buffer is live.
pub open spec fn all_dead(buf: Seq<Color>) -> bool {
    forall|i: int| 0 <= i < buf.len() ==> buf[i] != live_color()
}

fn is_live(fb: &Framebuffer, x: isize, y: isize) -> (alive: bool)
    requires
        fb.wf(),
    ensures
        alive == cell_alive(fb.buffer@, fb.width as int, fb.height as int, x as int, y as int),
{
    match fb.get_point(x, y) {
        Some(color) => color.r == 255 && color.g == 255 && color.b == 255,
        None => false,
    }
}

/// Counts the live cells among the eight Moore neighbors of (x, y);
/// neighbors off the grid contribute nothing.
pub fn count_live_neighbors(fb: &Framebuffer, x: isize, y: isize) -> (count: usize)
    requires
        fb.wf(),
        isize::MIN < x < isize::MAX,
        isize::MIN < y < isize::MAX,
    ensures
        count == live_neighbor_count(
            fb.buffer@,
            fb.width as int,
            fb.height as int,
            x as int,
            y as int,
        ),
        count <= 8,
{
    let mut count: usize = 0;
    if is_live(fb, x - 1, y - 1) {
        count = count + 1;
    }
    if is_live(fb, x - 1, y) {
        count = count + 1;
    }
    if is_live(fb, x - 1, y + 1) {
        count = count + 1;
    }
    if is_live(fb, x, y - 1) {
        count = count + 1;
    }
    if is_live(fb, x, y + 1) {
        count = count + 1;
    }
    if is_live(fb, x + 1, y - 1) {
        count = count + 1;
    }
    if is_live(fb, x + 1, y) {
        count = count + 1;
    }
    if is_live(fb, x + 1, y + 1) {
        count = count + 1;
    }
    count
}

/// Advances the buffer one generation: every cell of the new buffer is the
/// rule applied to the old buffer, which is read as one consistent
/// snapshot throughout.
pub fn update_framebuffer(fb: &mut Framebuffer)
    requires
        old(fb).wf(),
        old(fb).width <= 0x1000_0000,
        old(fb).height <= 0x1000_0000,
    ensures
        final(fb).wf(),
        final(fb).width == old(fb).width,
        final(fb).height == old(fb).height,
        final(fb).background_color == old(fb).background_color,
        final(fb).current_color == old(fb).current_color,
        final(fb).buffer@ == life_step(
            old(fb).buffer@,
            old(fb).width as int,
            old(fb).height as int,
        ),
{
    let w = fb.width;
    let h = fb.height;
    let ghost snapshot = fb.buffer@;
    let ghost stepped = life_step(snapshot, w as int, h as int);
    let mut new_buffer: Vec<Color> = Vec::new();
    let mut y: usize = 0;
    while y < h
        invariant
            y <= h,
            *fb == *old(fb),
            w == fb.width,
            h == fb.height,
            fb.wf(),
            w <= 0x1000_0000,
            h <= 0x1000_0000,
            snapshot == fb.buffer@,
            stepped == life_step(snapshot, w as int, h as int),
            new_buffer.len() == y * w,
            forall|i: int| 0 <= i < y * w ==> new_buffer[i] == stepped[i],
        decreases h - y,
    {
        let mut x: usize = 0;
        while x < w
            invariant
                x <= w,
                y < h,
                *fb == *old(fb),
                w == fb.width,
                h == fb.height,
                fb.wf(),
                w <= 0x1000_0000,
                h <= 0x1000_0000,
                snapshot == fb.buffer@,
                stepped == life_step(snapshot, w as int, h as int),
                new_buffer.len() == y * w + x,
                forall|i: int| 0 <= i < y * w + x ==> new_buffer[i] == stepped[i],
            decreases w - x,
        {
            proof {
                lemma_row_major_bound(x as int, y as int, w as int, h as int);
            }
            let live_neighbors = count_live_neighbors(fb, x as isize, y as isize);
            let index = y * w + x;
            let cell = fb.buffer[index];
            let next = if cell.r == 255 && cell.g == 255 && cell.b == 255 {
                if live_neighbors < 2 || live_neighbors > 3 {
                    Color { r: 0, g: 0, b: 0 }
                } else {
                    cell
                }
            } else {
                if live_neighbors == 3 {
                    Color { r: 255, g: 255, b: 255 }
                } else {
                    cell
                }
            };
            new_buffer.push(next);
            proof {
                lemma_row_major_coords(x as int, y as int, w as int);
                assert(next == next_cell(snapshot, w as int, h as int, x as int, y as int));
                assert(next == stepped[y * w + x]);
            }
            x = x + 1;
        }
        proof {
            assert((y + 1) * w == y * w + w) by (nonlinear_arith);
        }
        y = y + 1;
    }
    proof {
        assert(new_buffer.len() == h * w);
        assert(new_buffer@ =~= stepped) by {
            assert(stepped.len() == snapshot.len());
            assert(snapshot.len() == w * h);
            assert(h * w == w * h) by (nonlinear_arith);
        }
    }
    fb.buffer = new_buffer;
}

/// Law: one step of a grid with no live cell changes nothing at all;
/// every cell keeps its prior color.
pub proof fn lemma_step_all_dead(buf: Seq<Color>, w: int, h: int)
    requires
        w > 0,
        h > 0,
        buf.len() == w * h,
        all_dead(buf),
    ensures
        life_step(buf, w, h) == buf,
{
    assert forall|i: int| 0 <= i < buf.len() implies life_step(buf, w, h)[i] == buf[i] by {
        vstd::arithmetic::div_mod::lemma_fundamental_div_mod(i, w);
        let x = i % w;
        let y = i / w;
        assert(0 <= x < w && 0 <= y < h) by (nonlinear_arith)
            requires
                w > 0,
                h > 0,
                0 <= i < w * h,
                i == w * (i / w) + i % w,
                x == i % w,
                y == i / w,
        ;
        assert forall|nx: int, ny: int| !cell_alive(buf, w, h, nx, ny) by {
            if 0 <= nx < w && 0 <= ny < h {
                lemma_row_major_bound(nx, ny, w, h);
            }
        }
        assert(live_neighbor_count(buf, w, h, x, y) == 0);
        assert(buf[y * w + x] != live_color());
    }
    assert(life_step(buf, w, h) =~= buf);
}

/// Law: an all-dead grid stays exactly as it is after any number of
/// steps; in particular it stays all-dead forever.
pub proof fn lemma_all_dead_forever(buf: Seq<Color>, w: int, h: int, n: nat)
    requires
        w > 0,
        h > 0,
        buf.len() == w * h,
        all_dead(buf),
    ensures
        life_steps(buf, w, h, n) == buf,
        all_dead(life_steps(buf, w, h, n)),
    decreases n,
{
    if n > 0 {
        lemma_all_dead_forever(buf, w, h, (n - 1) as nat);
        lemma_step_all_dead(buf, w, h);
    }
}

} // verus!
