//! The frame compositor: double-buffers rendered frames in a two-slot ring,
//! emits the minimal terminal update for each new frame, and maintains the
//! smoothed frame time behind the FPS overlay.

use vstd::prelude::*;
use crate::digits::{decimal_of, to_decimal};
use crate::frame::{diff_frame, diff_updates, pixel_bytes, CellUpdate};
use crate::timing::{ema_step, ema_update};

verus! {

/// The sentinel pixel both buffers start from: transparent white, a value
/// the renderer never writes (it clears to transparent black and draws
/// opaque pixels), so the whole first frame differs and is emitted.
pub open spec fn sentinel_pixel() -> Seq<u8> {
    seq![255u8, 255u8, 255u8, 0u8]
}

/// The overlay written over the origin cell on every frame: the smoothed
/// frames-per-second reading, in the fixed highlight color.
pub struct OverlayUpdate {
    pub x: u16,
    pub y: u16,
    pub r: u8,
    pub g: u8,
    pub b: u8,
    pub text: Vec<char>,
}

/// Everything one frame asks of the terminal: the changed cells in raster
/// order, then the overlay, which is applied last so that it covers whatever
/// cell update targeted the origin.
pub struct FrameOutput {
    pub cells: Vec<CellUpdate>,
    pub overlay: OverlayUpdate,
}

/// The text of the overlay: the whole frames-per-second value implied by a
/// smoothed frame duration in microseconds, or "inf" while the average is
/// still zero.
pub open spec fn overlay_text(smoothed: nat) -> Seq<char> {
    if smoothed == 0 {
        seq!['i', 'n', 'f']
    } else {
        decimal_of((1000000 as nat) / smoothed)
    }
}

/// The byte length of a pixel buffer for a `width` by `height` terminal —
/// four bytes per cell — or nothing when that many bytes are not even
/// addressable, in which case no compositor can be built.
pub fn pixel_buffer_len(width: u16, height: u16) -> (r: Option<usize>)
    ensures
        r is Some <==> 4 * (width as int) * (height as int) <= usize::MAX as int,
        r is Some ==> r->Some_0 as int == 4 * (width as int) * (height as int),
{
    proof {
        assert(4 * (width as int) * (height as int) <= 4 * 65535 * 65535) by (nonlinear_arith)
            requires
                width <= 65535,
                height <= 65535,
        ;
    }
    let total: u64 = 4u64 * (width as u64) * (height as u64);
    if total <= usize::MAX as u64 {
        Some(total as usize)
    } else {
        None
    }
}

/// A buffer of `width * height` sentinel pixels.
fn sentinel_buffer(width: u16, height: u16) -> (buf: Vec<u8>)
    requires
        4 * (width as int) * (height as int) <= usize::MAX as int,
    ensures
        buf@.len() == 4 * (width as int) * (height as int),
        forall|p: int|
            0 <= p < (width as int) * (height as int) ==> #[trigger] pixel_bytes(buf@, p)
                == sentinel_pixel(),
{
    proof {
        assert((width as int) * (height as int) <= 4 * (width as int) * (height as int))
            by (nonlinear_arith);
        assert(4 * (width as int) * (height as int) == 4 * ((width as int) * (height as int)))
            by (nonlinear_arith);
    }
    let n: usize = (width as usize) * (height as usize);
    let mut buf: Vec<u8> = Vec::new();
    let mut p: usize = 0;
    while p < n
        invariant
            p <= n,
            n == (width as int) * (height as int),
            buf@.len() == 4 * p,
            forall|q: int| 0 <= q < p ==> #[trigger] pixel_bytes(buf@, q) == sentinel_pixel(),
        decreases n - p,
    {
        let ghost pre = buf@;
        buf.push(255u8);
        buf.push(255u8);
        buf.push(255u8);
        buf.push(0u8);
        proof {
            assert(buf@ =~= pre + sentinel_pixel());
            assert forall|q: int| 0 <= q < p + 1 implies #[trigger] pixel_bytes(buf@, q)
                == sentinel_pixel() by {
                if q < p {
                    assert(pixel_bytes(pre, q) == sentinel_pixel());
                    assert(pixel_bytes(buf@, q) =~= pixel_bytes(pre, q));
                } else {
                    assert(pixel_bytes(buf@, q) =~= sentinel_pixel());
                }
            }
        }
        p += 1;
    }
    proof {
        assert(buf@.len() == 4 * ((width as int) * (height as int)));
    }
    buf
}

/// Double-buffers the rendered frames and turns each new one into the
/// minimal set of terminal cell writes, plus the FPS overlay.
pub struct Compositor {
    width: u16,
    height: u16,
    buf_a: Vec<u8>,
    buf_b: Vec<u8>,
    current_is_a: bool,
    smoothed_micros: u64,
}

impl Compositor {
    /// Terminal size in columns; fixed for the compositor's lifetime.
    pub closed spec fn cols(self) -> int {
        self.width as int
    }

    /// Terminal size in rows; fixed for the compositor's lifetime.
    pub closed spec fn rows(self) -> int {
        self.height as int
    }

    /// The buffer holding the newest presented frame.
    pub closed spec fn current(self) -> Seq<u8> {
        if self.current_is_a {
            self.buf_a@
        } else {
            self.buf_b@
        }
    }

    /// The buffer holding the frame before the newest one.
    pub closed spec fn previous(self) -> Seq<u8> {
        if self.current_is_a {
            self.buf_b@
        } else {
            self.buf_a@
        }
    }

    /// The smoothed frame duration, in whole microseconds.
    pub closed spec fn smoothed(self) -> nat {
        self.smoothed_micros as nat
    }

    /// Both pixel buffers cover the whole terminal, four bytes per cell, and
    /// always have identical dimensions.
    pub open spec fn well_formed(self) -> bool {
        &&& self.current().len() == 4 * self.cols() * self.rows()
        &&& self.previous().len() == self.current().len()
    }

    /// Sets up a compositor for a terminal of `width` columns and `height`
    /// rows. Both buffers start holding the sentinel pixel everywhere and
    /// the smoothed frame duration starts at zero.
    pub fn new(width: u16, height: u16) -> (c: Compositor)
        requires
            4 * (width as int) * (height as int) <= usize::MAX as int,
        ensures
            c.well_formed(),
            c.cols() == width as int,
            c.rows() == height as int,
            c.smoothed() == 0,
            forall|p: int|
                0 <= p < (width as int) * (height as int) ==> #[trigger] pixel_bytes(
                    c.previous(),
                    p,
                ) == sentinel_pixel(),
    {
        let buf_a = sentinel_buffer(width, height);
        let buf_b = sentinel_buffer(width, height);
        Compositor { width, height, buf_a, buf_b, current_is_a: false, smoothed_micros: 0 }
    }

    /// The smoothed frame duration, in whole microseconds.
    pub fn smoothed_micros(&self) -> (s: u64)
        ensures
            s as nat == self.smoothed(),
    {
        self.smoothed_micros
    }

    /// Terminal size in columns.
    pub fn width(&self) -> (w: u16)
        ensures
            w as int == self.cols(),
    {
        self.width
    }

    /// Terminal size in rows.
    pub fn height(&self) -> (h: u16)
        ensures
            h as int == self.rows(),
    {
        self.height
    }

    /// Presents a newly rendered frame: the new pixels become the current
    /// buffer and the old current becomes the previous (the oldest buffer is
    /// overwritten in place); one update is emitted per changed cell, in
    /// raster order; the measured frame duration is folded into the smoothed
    /// average; and the FPS overlay for the origin cell is re-emitted,
    /// whether or not the pixel there changed.
    pub fn present(&mut self, new_pixels: Vec<u8>, frame_micros: u64) -> (out: FrameOutput)
        requires
            old(self).well_formed(),
            new_pixels@.len() == old(self).current().len(),
        ensures
            final(self).well_formed(),
            final(self).cols() == old(self).cols(),
            final(self).rows() == old(self).rows(),
            final(self).current() == new_pixels@,
            final(self).previous() == old(self).current(),
            final(self).smoothed() == ema_step(old(self).smoothed(), frame_micros as nat),
            out.cells@ == diff_updates(
                new_pixels@,
                old(self).current(),
                old(self).cols(),
                old(self).rows(),
            ),
            out.overlay.x == 0 && out.overlay.y == 0,
            out.overlay.r == 255 && out.overlay.g == 0 && out.overlay.b == 0,
            out.overlay.text@ == overlay_text(final(self).smoothed()),
    {
        self.current_is_a = !self.current_is_a;
        if self.current_is_a {
            self.buf_a = new_pixels;
        } else {
            self.buf_b = new_pixels;
        }
        let cells = if self.current_is_a {
            diff_frame(&self.buf_a, &self.buf_b, self.width, self.height)
        } else {
            diff_frame(&self.buf_b, &self.buf_a, self.width, self.height)
        };
        self.smoothed_micros = ema_update(self.smoothed_micros, frame_micros);
        let text: Vec<char> = if self.smoothed_micros == 0 {
            let mut t: Vec<char> = Vec::new();
            t.push('i');
            t.push('n');
            t.push('f');
            proof {
                assert(t@ =~= overlay_text(0));
            }
            t
        } else {
            to_decimal(1000000 / self.smoothed_micros)
        };
        FrameOutput { cells, overlay: OverlayUpdate { x: 0, y: 0, r: 255, g: 0, b: 0, text } }
    }
}

} // verus!
