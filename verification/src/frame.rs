//! The per-frame pixel diff: which terminal cells must be rewritten when one
//! rendered RGBA buffer replaces another, and what each write carries.
//!
//! A buffer is a dense row-major sequence of 4-byte RGBA pixels for a
//! terminal of `w` columns and `h` rows; cell index `p` is column `p % w` of
//! row `p / w`. A cell is rewritten exactly when its pixel changed, and the
//! write carries the new pixel's RGB and its glyph: a space for a fully
//! transparent pixel (erasing the cell), a fixed visible glyph otherwise.

use vstd::prelude::*;
use vstd::arithmetic::div_mod::{
    lemma_div_multiples_vanish, lemma_div_pos_is_pos, lemma_fundamental_div_mod,
    lemma_fundamental_div_mod_converse, lemma_mod_bound, lemma_multiply_divide_lt,
};

verus! {

/// One RGBA pixel, 8 bits per channel, as the renderer writes it.
#[derive(Clone, Copy, PartialEq, Eq, Structural, Debug)]
pub struct Pixel {
    pub r: u8,
    pub g: u8,
    pub b: u8,
    pub a: u8,
}

/// The glyph for a pixel with the given alpha: a fully transparent pixel
/// erases its cell with a space, any other pixel is drawn as the fixed
/// visible glyph.
pub open spec fn glyph_of(alpha: u8) -> char {
    if alpha == 0 {
        ' '
    } else {
        '0'
    }
}

/// The glyph a pixel is drawn with; only the alpha channel decides.
pub fn get_ascii(pixel: Pixel) -> (c: char)
    ensures
        c == glyph_of(pixel.a),
{
    if pixel.a == 0 {
        ' '
    } else {
        '0'
    }
}

/// One positioned, colored glyph write targeting a single terminal cell.
#[derive(Clone, Copy, PartialEq, Eq, Structural, Debug)]
pub struct CellUpdate {
    pub x: u16,
    pub y: u16,
    pub r: u8,
    pub g: u8,
    pub b: u8,
    pub glyph: char,
}

/// The four RGBA bytes of the pixel at cell index `p` of a row-major buffer.
pub open spec fn pixel_bytes(buf: Seq<u8>, p: int) -> Seq<u8> {
    buf.subrange(4 * p, 4 * p + 4)
}

/// The update emitted for a changed pixel at cell index `p` of a buffer `w`
/// cells wide: the cell's column and row, the pixel's own RGB, its glyph.
pub open spec fn update_at(cur: Seq<u8>, w: int, p: int) -> CellUpdate {
    CellUpdate {
        x: (p % w) as u16,
        y: (p / w) as u16,
        r: cur[4 * p],
        g: cur[4 * p + 1],
        b: cur[4 * p + 2],
        glyph: glyph_of(cur[4 * p + 3]),
    }
}

/// The updates for the first `p` cells: one per cell whose pixel differs
/// between the two buffers, in raster order.
pub open spec fn diff_upto(cur: Seq<u8>, prev: Seq<u8>, w: int, p: int) -> Seq<CellUpdate>
    decreases p,
{
    if p <= 0 {
        Seq::empty()
    } else if pixel_bytes(cur, p - 1) != pixel_bytes(prev, p - 1) {
        diff_upto(cur, prev, w, p - 1).push(update_at(cur, w, p - 1))
    } else {
        diff_upto(cur, prev, w, p - 1)
    }
}

/// All updates of one frame on a terminal of `w` columns and `h` rows.
pub open spec fn diff_updates(cur: Seq<u8>, prev: Seq<u8>, w: int, h: int) -> Seq<CellUpdate> {
    diff_upto(cur, prev, w, w * h)
}

/// How many of the first `p` cells hold differing pixels.
pub open spec fn changed_upto(cur: Seq<u8>, prev: Seq<u8>, p: int) -> nat
    decreases p,
{
    if p <= 0 {
        0
    } else if pixel_bytes(cur, p - 1) != pixel_bytes(prev, p - 1) {
        changed_upto(cur, prev, p - 1) + 1
    } else {
        changed_upto(cur, prev, p - 1)
    }
}

/// Two cells hold equal pixels exactly when all four channel bytes agree.
proof fn lemma_pixel_bytes_eq(cur: Seq<u8>, prev: Seq<u8>, p: int)
    requires
        0 <= p,
        4 * p + 4 <= cur.len(),
        4 * p + 4 <= prev.len(),
    ensures
        pixel_bytes(cur, p) == pixel_bytes(prev, p) <==> (cur[4 * p] == prev[4 * p]
            && cur[4 * p + 1] == prev[4 * p + 1] && cur[4 * p + 2] == prev[4 * p + 2] && cur[4 * p
            + 3] == prev[4 * p + 3]),
{
    let a = pixel_bytes(cur, p);
    let b = pixel_bytes(prev, p);
    if cur[4 * p] == prev[4 * p] && cur[4 * p + 1] == prev[4 * p + 1] && cur[4 * p + 2] == prev[4
        * p + 2] && cur[4 * p + 3] == prev[4 * p + 3] {
        assert(a =~= b);
    }
    if a == b {
        assert(cur[4 * p] == a[0] && prev[4 * p] == b[0]);
        assert(cur[4 * p + 1] == a[1] && prev[4 * p + 1] == b[1]);
        assert(cur[4 * p + 2] == a[2] && prev[4 * p + 2] == b[2]);
        assert(cur[4 * p + 3] == a[3] && prev[4 * p + 3] == b[3]);
    }
}

/// Computes one frame's updates: one per pixel that differs between the new
/// (current) and the previous buffer, in raster order.
pub fn diff_frame(cur: &Vec<u8>, prev: &Vec<u8>, width: u16, height: u16) -> (cells: Vec<
    CellUpdate,
>)
    requires
        cur@.len() == 4 * (width as int) * (height as int),
        prev@.len() == cur@.len(),
    ensures
        cells@ == diff_updates(cur@, prev@, width as int, height as int),
{
    let n: usize = cur.len() / 4;
    proof {
        let cells_total = (width as int) * (height as int);
        assert(4 * (width as int) * (height as int) == 4 * ((width as int) * (height as int)))
            by (nonlinear_arith);
        lemma_div_multiples_vanish(cells_total, 4);
        assert(n == cells_total);
    }
    let mut cells: Vec<CellUpdate> = Vec::new();
    let mut p: usize = 0;
    while p < n
        invariant
            p <= n,
            n == (width as int) * (height as int),
            cur@.len() == 4 * (width as int) * (height as int),
            cur@.len() <= usize::MAX as int,
            prev@.len() == cur@.len(),
            cells@ == diff_upto(cur@, prev@, width as int, p as int),
        decreases n - p,
    {
        proof {
            assert(4 * (width as int) * (height as int) == 4 * ((width as int) * (height as int)))
                by (nonlinear_arith);
            assert(4 * p + 4 <= cur@.len());
        }
        let base: usize = 4 * p;
        let changed = cur[base] != prev[base] || cur[base + 1] != prev[base + 1] || cur[base + 2]
            != prev[base + 2] || cur[base + 3] != prev[base + 3];
        proof {
            lemma_pixel_bytes_eq(cur@, prev@, p as int);
        }
        if changed {
            proof {
                assert(width > 0 && height > 0) by (nonlinear_arith)
                    requires
                        (p as int) < (width as int) * (height as int),
                        0 <= p as int,
                        width >= 0,
                        height >= 0,
                ;
                lemma_mod_bound(p as int, width as int);
                lemma_multiply_divide_lt(p as int, width as int, height as int);
                lemma_div_pos_is_pos(p as int, width as int);
            }
            let x = (p % (width as usize)) as u16;
            let y = (p / (width as usize)) as u16;
            let u = CellUpdate {
                x,
                y,
                r: cur[base],
                g: cur[base + 1],
                b: cur[base + 2],
                glyph: if cur[base + 3] == 0 {
                    ' '
                } else {
                    '0'
                },
            };
            cells.push(u);
            proof {
                assert(u == update_at(cur@, width as int, p as int));
                assert(cells@ =~= diff_upto(cur@, prev@, width as int, p + 1));
            }
        } else {
            proof {
                assert(cells@ =~= diff_upto(cur@, prev@, width as int, p + 1));
            }
        }
        p += 1;
    }
    cells
}

/// What must hold of an emitted update `u` against the current and previous
/// buffers of width `w`: it points back at a cell whose pixel changed, and
/// it carries that pixel's own color and glyph.
pub open spec fn update_sound(cur: Seq<u8>, prev: Seq<u8>, w: int, u: CellUpdate) -> bool {
    let p = (u.y as int) * w + (u.x as int);
    &&& (u.x as int) < w
    &&& pixel_bytes(cur, p) != pixel_bytes(prev, p)
    &&& u.r == cur[4 * p]
    &&& u.g == cur[4 * p + 1]
    &&& u.b == cur[4 * p + 2]
    &&& u.glyph == glyph_of(cur[4 * p + 3])
}

/// The update pushed for cell index `q` points back at cell `q`, carries its
/// pixel, and its column and row casts lose nothing.
proof fn lemma_update_at_coords(cur: Seq<u8>, w: int, h: int, q: int)
    requires
        0 < w <= u16::MAX as int,
        h <= u16::MAX as int,
        0 <= q < w * h,
    ensures
        (update_at(cur, w, q).x as int) == q % w,
        (update_at(cur, w, q).y as int) == q / w,
        (update_at(cur, w, q).y as int) * w + (update_at(cur, w, q).x as int) == q,
{
    lemma_mod_bound(q, w);
    lemma_multiply_divide_lt(q, w, h);
    lemma_div_pos_is_pos(q, w);
    lemma_fundamental_div_mod(q, w);
    assert(w * (q / w) == (q / w) * w) by (nonlinear_arith);
}

/// Every update among the first `p` cells' diffs is sound.
proof fn lemma_diff_upto_sound(cur: Seq<u8>, prev: Seq<u8>, w: int, h: int, p: int)
    requires
        0 < w <= u16::MAX as int,
        h <= u16::MAX as int,
        0 <= p <= w * h,
    ensures
        forall|i: int|
            0 <= i < diff_upto(cur, prev, w, p).len() ==> update_sound(
                cur,
                prev,
                w,
                #[trigger] diff_upto(cur, prev, w, p)[i],
            ),
    decreases p,
{
    if p > 0 {
        lemma_diff_upto_sound(cur, prev, w, h, p - 1);
        let s0 = diff_upto(cur, prev, w, p - 1);
        let s = diff_upto(cur, prev, w, p);
        if pixel_bytes(cur, p - 1) != pixel_bytes(prev, p - 1) {
            lemma_update_at_coords(cur, w, h, p - 1);
            assert(update_sound(cur, prev, w, update_at(cur, w, p - 1)));
            assert forall|i: int| 0 <= i < s.len() implies update_sound(
                cur,
                prev,
                w,
                #[trigger] s[i],
            ) by {
                if i < s0.len() {
                    assert(s[i] == s0[i]);
                } else {
                    assert(s[i] == update_at(cur, w, p - 1));
                }
            }
        } else {
            assert(s == s0);
        }
    }
}

/// Law: every update a frame emits carries the changed pixel's own RGB, and
/// its glyph is a space exactly when that pixel is fully transparent; the
/// cell it targets did change.
pub proof fn lemma_emitted_update_matches_pixel(
    cur: Seq<u8>,
    prev: Seq<u8>,
    w: int,
    h: int,
    i: int,
)
    requires
        0 < w <= u16::MAX as int,
        0 <= h <= u16::MAX as int,
        0 <= i < diff_updates(cur, prev, w, h).len(),
    ensures
        update_sound(cur, prev, w, diff_updates(cur, prev, w, h)[i]),
        diff_updates(cur, prev, w, h)[i].glyph == ' ' <==> cur[4 * ((diff_updates(
            cur,
            prev,
            w,
            h,
        )[i].y as int) * w + (diff_updates(cur, prev, w, h)[i].x as int)) + 3] == 0,
{
    lemma_diff_upto_sound(cur, prev, w, h, w * h);
}

/// No update among the first `p` cells' diffs targets the cell at column `x`
/// and row `y` when that cell's pixel did not change.
proof fn lemma_diff_upto_skips(cur: Seq<u8>, prev: Seq<u8>, w: int, h: int, p: int, x: int, y: int)
    requires
        0 < w <= u16::MAX as int,
        h <= u16::MAX as int,
        0 <= p <= w * h,
        0 <= x < w,
        0 <= y,
        pixel_bytes(cur, y * w + x) == pixel_bytes(prev, y * w + x),
    ensures
        forall|i: int|
            0 <= i < diff_upto(cur, prev, w, p).len() ==> !((#[trigger] diff_upto(
                cur,
                prev,
                w,
                p,
            )[i].x as int) == x && (diff_upto(cur, prev, w, p)[i].y as int) == y),
    decreases p,
{
    if p > 0 {
        lemma_diff_upto_skips(cur, prev, w, h, p - 1, x, y);
        let s0 = diff_upto(cur, prev, w, p - 1);
        let s = diff_upto(cur, prev, w, p);
        if pixel_bytes(cur, p - 1) != pixel_bytes(prev, p - 1) {
            let u = update_at(cur, w, p - 1);
            lemma_update_at_coords(cur, w, h, p - 1);
            if (u.x as int) == x && (u.y as int) == y {
                assert(p - 1 == y * w + x);
            }
            assert forall|i: int| 0 <= i < s.len() implies !((#[trigger] s[i].x as int) == x
                && (s[i].y as int) == y) by {
                if i < s0.len() {
                    assert(s[i] == s0[i]);
                } else {
                    assert(s[i] == u);
                }
            }
        } else {
            assert(s == s0);
        }
    }
}

/// Law: a cell whose pixel is the same in the current and the previous
/// buffer gets no update — the diff never rewrites an unchanged cell.
pub proof fn lemma_unchanged_cell_not_emitted(
    cur: Seq<u8>,
    prev: Seq<u8>,
    w: int,
    h: int,
    x: int,
    y: int,
)
    requires
        0 < w <= u16::MAX as int,
        0 <= h <= u16::MAX as int,
        0 <= x < w,
        0 <= y < h,
        pixel_bytes(cur, y * w + x) == pixel_bytes(prev, y * w + x),
    ensures
        forall|i: int|
            0 <= i < diff_updates(cur, prev, w, h).len() ==> !((#[trigger] diff_updates(
                cur,
                prev,
                w,
                h,
            )[i].x as int) == x && (diff_updates(cur, prev, w, h)[i].y as int) == y),
{
    lemma_diff_upto_skips(cur, prev, w, h, w * h, x, y);
}

/// Among the first `p` cells' diffs there is an update for the changed cell
/// at column `x` and row `y`, provided that cell lies below `p`.
proof fn lemma_diff_upto_emits(cur: Seq<u8>, prev: Seq<u8>, w: int, h: int, p: int, x: int, y: int)
    requires
        0 < w <= u16::MAX as int,
        h <= u16::MAX as int,
        0 <= p <= w * h,
        0 <= x < w,
        0 <= y,
        y * w + x < p,
        pixel_bytes(cur, y * w + x) != pixel_bytes(prev, y * w + x),
    ensures
        exists|i: int|
            0 <= i < diff_upto(cur, prev, w, p).len() && (#[trigger] diff_upto(
                cur,
                prev,
                w,
                p,
            )[i]).x as int == x && diff_upto(cur, prev, w, p)[i].y as int == y,
    decreases p,
{
    let q0 = y * w + x;
    if p - 1 == q0 {
        let u = update_at(cur, w, q0);
        lemma_fundamental_div_mod_converse(q0, w, y, x);
        lemma_mod_bound(q0, w);
        lemma_multiply_divide_lt(q0, w, h);
        lemma_div_pos_is_pos(q0, w);
        let s = diff_upto(cur, prev, w, p);
        assert(s[s.len() - 1] == u);
        assert((u.x as int) == x && (u.y as int) == y);
    } else {
        lemma_diff_upto_emits(cur, prev, w, h, p - 1, x, y);
        let s0 = diff_upto(cur, prev, w, p - 1);
        let s = diff_upto(cur, prev, w, p);
        let i0 = choose|i: int|
            0 <= i < s0.len() && (#[trigger] s0[i]).x as int == x && s0[i].y as int == y;
        assert(s[i0] == s0[i0]);
    }
}

/// Law: a cell whose pixel did change is written — together with
/// `lemma_unchanged_cell_not_emitted`, a cell is rewritten exactly when its
/// pixel changed.
pub proof fn lemma_changed_cell_emitted(
    cur: Seq<u8>,
    prev: Seq<u8>,
    w: int,
    h: int,
    x: int,
    y: int,
)
    requires
        0 < w <= u16::MAX as int,
        0 <= h <= u16::MAX as int,
        0 <= x < w,
        0 <= y < h,
        pixel_bytes(cur, y * w + x) != pixel_bytes(prev, y * w + x),
    ensures
        exists|i: int|
            0 <= i < diff_updates(cur, prev, w, h).len() && (#[trigger] diff_updates(
                cur,
                prev,
                w,
                h,
            )[i]).x as int == x && diff_updates(cur, prev, w, h)[i].y as int == y,
{
    assert(y * w + x < w * h) by (nonlinear_arith)
        requires
            0 <= x < w,
            0 <= y < h,
    ;
    lemma_diff_upto_emits(cur, prev, w, h, w * h, x, y);
    let s0 = diff_upto(cur, prev, w, w * h);
    let s = diff_updates(cur, prev, w, h);
    let i0 = choose|i: int| 0 <= i < s0.len() && (#[trigger] s0[i]).x as int == x && s0[i].y as int
        == y;
    assert(0 <= i0 < s.len() && (s[i0]).x as int == x && s[i0].y as int == y);
}

/// The diff over the first `p` cells holds exactly one update per changed
/// cell.
proof fn lemma_diff_upto_len(cur: Seq<u8>, prev: Seq<u8>, w: int, p: int)
    ensures
        diff_upto(cur, prev, w, p).len() == changed_upto(cur, prev, p),
    decreases p,
{
    if p > 0 {
        lemma_diff_upto_len(cur, prev, w, p - 1);
    }
}

/// Law: the number of updates a frame emits equals the number of changed
/// cells — never a full-frame rewrite.
pub proof fn lemma_diff_len_is_changed_count(cur: Seq<u8>, prev: Seq<u8>, w: int, h: int)
    ensures
        diff_updates(cur, prev, w, h).len() == changed_upto(cur, prev, w * h),
{
    lemma_diff_upto_len(cur, prev, w, w * h);
}

} // verus!
