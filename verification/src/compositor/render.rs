//! The software painter: it paints the window manager's visible windows
//! into the framebuffer and reports the damaged rectangles, which a shared
//! damage list hands to VNC clients.

use vstd::prelude::*;
use crate::compositor::vnc::{Framebuffer, byte_index, col_of, row_of, lemma_coords, lemma_decompose};
use crate::compositor::window::{Window, WindowManager, WindowState, as_i32, lists_exactly, shown, sorted_by_z, to_i32};

verus! {

/// A rectangular damage region in pixel coordinates; `x`/`y` may be
/// negative for regions partly outside the framebuffer.
#[derive(Clone, Copy, Debug, PartialEq, Eq, Structural)]
pub struct Rect {
    pub x: i32,
    pub y: i32,
    pub w: u32,
    pub h: u32,
}

impl Rect {
    pub fn new(x: i32, y: i32, w: u32, h: u32) -> (r: Self)
        ensures
            r == (Rect { x, y, w, h }),
    {
        Rect { x, y, w, h }
    }

    /// The rectangle covering a whole `width` x `height` framebuffer.
    pub fn full(width: u32, height: u32) -> (r: Self)
        ensures
            r == (Rect { x: 0, y: 0, w: width, h: height }),
    {
        Rect { x: 0, y: 0, w: width, h: height }
    }
}

pub open spec fn min_int(a: int, b: int) -> int {
    if a < b {
        a
    } else {
        b
    }
}

/// Byte `k` of a `len`-byte, `fw` x `fh` framebuffer lies in the part of
/// rectangle `(x, y, w, h)` that `fill_rect` paints: inside the framebuffer,
/// on a row whose painted span ends within the buffer.
pub open spec fn covers(len: int, fw: int, fh: int, x: int, y: int, w: int, h: int, k: int) -> bool {
    let mw = min_int(fw - x, w);
    let mh = min_int(fh - y, h);
    &&& x < fw
    &&& y < fh
    &&& w > 0
    &&& h > 0
    &&& y <= row_of(fw, k) < y + mh
    &&& x <= col_of(fw, k) < x + mw
    &&& byte_index(fw, x + mw, row_of(fw, k), 0) <= len
}

/// `pix` with rectangle `(x, y, w, h)` painted in `color`.
pub open spec fn painted(
    pix: Seq<u8>,
    fw: int,
    fh: int,
    x: int,
    y: int,
    w: int,
    h: int,
    color: Seq<u8>,
) -> Seq<u8> {
    Seq::new(
        pix.len(),
        |k: int|
            if covers(pix.len() as int, fw, fh, x, y, w, h, k) {
                color[k % 4]
            } else {
                pix[k]
            },
    )
}

proof fn lemma_row_segment(fw: int, rowy: int, x: int, mw: int, k: int)
    requires
        fw > 0,
        0 <= x,
        0 <= mw,
        x + mw <= fw,
        rowy >= 0,
        k >= 0,
    ensures
        (byte_index(fw, x, rowy, 0) <= k < byte_index(fw, x + mw, rowy, 0)) <==> (row_of(fw, k)
            == rowy && x <= col_of(fw, k) < x + mw),
{
    lemma_decompose(fw, k);
    let r = row_of(fw, k);
    let c = col_of(fw, k);
    let ch = k % 4;
    assert(k == (r * fw + c) * 4 + ch);
    if r < rowy {
        assert(r * fw + fw <= rowy * fw) by (nonlinear_arith)
            requires
                r < rowy,
                fw > 0,
        ;
    } else if r > rowy {
        assert(rowy * fw + fw <= r * fw) by (nonlinear_arith)
            requires
                r > rowy,
                fw > 0,
        ;
    }
}

proof fn lemma_row_end_monotone(fw: int, a: int, r1: int, r2: int)
    requires
        fw > 0,
        r1 <= r2,
    ensures
        byte_index(fw, a, r1, 0) + (r2 - r1) * fw * 4 == byte_index(fw, a, r2, 0),
{
    assert((r2 * fw + a) * 4 == (r1 * fw + a) * 4 + (r2 - r1) * fw * 4) by (nonlinear_arith);
}

/// Paint `color` into rectangle `(x, y, w, h)` of `fb`, clipped to the
/// framebuffer; rows whose span would run past the pixel buffer, and all
/// rows after them, are left as they are.
pub fn fill_rect(fb: &mut Framebuffer, x: u32, y: u32, w: u32, h: u32, color: [u8; 4])
    ensures
        final(fb).width == old(fb).width,
        final(fb).height == old(fb).height,
        final(fb).sequence == old(fb).sequence,
        final(fb).pixels@ == painted(
            old(fb).pixels@,
            old(fb).width as int,
            old(fb).height as int,
            x as int,
            y as int,
            w as int,
            h as int,
            color@,
        ),
{
    let ghost old_pix = fb.pixels@;
    let fw = fb.width as u32;
    let fh = fb.height as u32;
    let len = fb.pixels.len();
    let ghost gfw = fw as int;
    let ghost gfh = fh as int;
    if x >= fw || y >= fh || w == 0 || h == 0 {
        assert(fb.pixels@ =~= painted(old_pix, gfw, gfh, x as int, y as int, w as int, h as int, color@));
        return;
    }
    let max_w = if fw - x < w { fw - x } else { w };
    let max_h = if fh - y < h { fh - y } else { h };
    let mut row: u32 = 0;
    let mut stop = false;
    while row < max_h && !stop
        invariant
            fb.width == gfw,
            fb.height == gfh,
            fb.sequence == old(fb).sequence,
            len == fb.pixels@.len(),
            len == old_pix.len(),
            0 <= x < fw,
            0 <= y < fh,
            w > 0,
            h > 0,
            fw == gfw,
            fh == gfh,
            fw <= 0xffff,
            fh <= 0xffff,
            max_w == min_int(gfw - x, w as int),
            max_h == min_int(gfh - y, h as int),
            row <= max_h,
            stop ==> byte_index(gfw, x + max_w, y + row, 0) > len,
            forall|k: int|
                0 <= k < len ==> #[trigger] fb.pixels@[k] == if covers(
                    len as int,
                    gfw,
                    gfh,
                    x as int,
                    y as int,
                    w as int,
                    h as int,
                    k,
                ) && row_of(gfw, k) < y + row {
                    color@[k % 4]
                } else {
                    old_pix[k]
                },
        decreases max_h - row, if stop { 0int } else { 1int },
    {
        assert((y + row) as int * fw as int <= 0xffff * 0xffff) by (nonlinear_arith)
            requires
                y + row < fh,
                fh <= 0xffff,
                fw <= 0xffff,
        ;
        let start: u64 = ((y + row) as u64 * fw as u64 + x as u64) * 4;
        let end: u64 = start + max_w as u64 * 4;
        assert(start == byte_index(gfw, x as int, (y + row) as int, 0));
        assert(end == byte_index(gfw, (x + max_w) as int, (y + row) as int, 0));
        if end > len as u64 {
            stop = true;
        } else {
            let mut k: usize = start as usize;
            while k < end as usize
                invariant
                    fb.width == gfw,
                    fb.height == gfh,
                    fb.sequence == old(fb).sequence,
                    len == fb.pixels@.len(),
                    start <= k <= end <= len,
                    forall|j: int|
                        0 <= j < len ==> #[trigger] fb.pixels@[j] == if (covers(
                            len as int,
                            gfw,
                            gfh,
                            x as int,
                            y as int,
                            w as int,
                            h as int,
                            j,
                        ) && row_of(gfw, j) < y + row) || (start <= j < k) {
                            color@[j % 4]
                        } else {
                            old_pix[j]
                        },
                decreases end - k,
            {
                fb.pixels.set(k, color[k % 4]);
                k += 1;
            }
            proof {
                assert forall|j: int| 0 <= j < len implies (start <= j < end) == (covers(
                    len as int,
                    gfw,
                    gfh,
                    x as int,
                    y as int,
                    w as int,
                    h as int,
                    j,
                ) && row_of(gfw, j) == y + row) by {
                    lemma_row_segment(gfw, (y + row) as int, x as int, max_w as int, j);
                }
            }
            row += 1;
        }
    }
    proof {
        assert forall|k: int| 0 <= k < len implies #[trigger] fb.pixels@[k] == painted(
            old_pix,
            gfw,
            gfh,
            x as int,
            y as int,
            w as int,
            h as int,
            color@,
        )[k] by {
            if covers(len as int, gfw, gfh, x as int, y as int, w as int, h as int, k) && row_of(
                gfw,
                k,
            ) >= y + row {
                assert(stop);
                lemma_row_end_monotone(gfw, (x + max_w) as int, (y + row) as int, row_of(gfw, k));
                assert((row_of(gfw, k) - (y + row)) * gfw * 4 >= 0) by (nonlinear_arith)
                    requires
                        row_of(gfw, k) >= y + row,
                        gfw > 0,
                ;
            }
        }
        assert(fb.pixels@ =~= painted(old_pix, gfw, gfh, x as int, y as int, w as int, h as int, color@));
    }
}

/// Soft cap on the damage list: beyond it the list collapses to one
/// full-screen rectangle.
pub const MAX_DAMAGE_RECTS: usize = 50;

/// Damage accumulated by the painter for VNC clients, with the framebuffer
/// size recorded at the last publication.
pub struct DamageState {
    pub rects: Vec<Rect>,
    pub fb_size: (u32, u32),
}

impl DamageState {
    pub fn new(initial_size: (u32, u32)) -> (d: Self)
        ensures
            d.rects@ == Seq::<Rect>::empty(),
            d.fb_size == initial_size,
    {
        DamageState { rects: Vec::new(), fb_size: initial_size }
    }

    /// Append a frame's rectangles and record the framebuffer size; when
    /// more than `MAX_DAMAGE_RECTS` accumulate they collapse to `full_rect`.
    pub fn publish(&mut self, new_rects: Vec<Rect>, full_rect: Rect)
        ensures
            final(self).fb_size == (full_rect.w, full_rect.h),
            (old(self).rects@ + new_rects@).len() > MAX_DAMAGE_RECTS ==> final(self).rects@ == seq![
                full_rect,
            ],
            (old(self).rects@ + new_rects@).len() <= MAX_DAMAGE_RECTS ==> final(self).rects@ == old(
                self,
            ).rects@ + new_rects@,
            final(self).rects@.len() <= MAX_DAMAGE_RECTS,
    {
        let mut extra = new_rects;
        self.rects.append(&mut extra);
        self.fb_size = (full_rect.w, full_rect.h);
        if self.rects.len() > MAX_DAMAGE_RECTS {
            self.rects.clear();
            self.rects.push(full_rect);
        }
    }

    /// Take the whole damage list, leaving it empty.
    pub fn drain(&mut self) -> (r: Vec<Rect>)
        ensures
            r@ == old(self).rects@,
            final(self).rects@ == Seq::<Rect>::empty(),
            final(self).fb_size == old(self).fb_size,
    {
        let mut r: Vec<Rect> = Vec::new();
        std::mem::swap(&mut r, &mut self.rects);
        r
    }

    /// The damage list, left in place.
    pub fn peek(&self) -> (r: Vec<Rect>)
        ensures
            r@ == self.rects@,
    {
        let mut r: Vec<Rect> = Vec::new();
        let mut i: usize = 0;
        while i < self.rects.len()
            invariant
                i <= self.rects@.len(),
                r@ == self.rects@.subrange(0, i as int),
            decreases self.rects@.len() - i,
        {
            r.push(self.rects[i]);
            i += 1;
        }
        r
    }

    pub fn fb_size(&self) -> (s: (u32, u32))
        ensures
            s == self.fb_size,
    {
        self.fb_size
    }
}

/// Background colour: deep navy.
pub open spec fn background() -> Seq<u8> {
    seq![16u8, 16u8, 24u8, 255u8]
}

/// The one-pixel window border colour.
pub open spec fn border() -> Seq<u8> {
    seq![40u8, 40u8, 56u8, 255u8]
}

/// Height of the title-bar stripe.
pub const TITLE_BAR_H: u32 = 24;

/// The body colour of window `id`, from a palette of six.
pub open spec fn palette(id: u32) -> Seq<u8> {
    let i = id % 6;
    if i == 0 {
        seq![56u8, 78u8, 120u8, 255u8]
    } else if i == 1 {
        seq![72u8, 56u8, 96u8, 255u8]
    } else if i == 2 {
        seq![56u8, 100u8, 96u8, 255u8]
    } else if i == 3 {
        seq![108u8, 88u8, 56u8, 255u8]
    } else if i == 4 {
        seq![72u8, 96u8, 56u8, 255u8]
    } else {
        seq![56u8, 56u8, 84u8, 255u8]
    }
}

/// `v` lowered by 20, stopping at 0.
pub open spec fn darker(v: u8) -> u8 {
    if v >= 20 {
        (v - 20) as u8
    } else {
        0
    }
}

/// The title-bar colour of a body colour: each channel darker, opaque.
pub open spec fn title_of(c: Seq<u8>) -> Seq<u8> {
    seq![darker(c[0]), darker(c[1]), darker(c[2]), 255u8]
}

pub open spec fn max_int(a: int, b: int) -> int {
    if a > b {
        a
    } else {
        b
    }
}

/// Left, top, right, bottom of the part of `w` inside an `fw` x `fh`
/// framebuffer (right and bottom exclusive).
pub open spec fn clip(fw: int, fh: int, w: Window) -> (int, int, int, int) {
    (
        max_int(w.x as int, 0),
        max_int(w.y as int, 0),
        min_int(w.x + as_i32(w.width), fw),
        min_int(w.y + as_i32(w.height), fh),
    )
}

/// Whether `w` leaves pixels on the framebuffer.
pub open spec fn drawn(fw: int, fh: int, w: Window) -> bool {
    let (x0, y0, x1, y1) = clip(fw, fh, w);
    w.width != 0 && w.height != 0 && x1 > x0 && y1 > y0
}

/// `pix` with window `w` painted: body, four border lines, title bar.
pub open spec fn window_painted(pix: Seq<u8>, fw: int, fh: int, w: Window) -> Seq<u8> {
    if drawn(fw, fh, w) {
        let (x0, y0, x1, y1) = clip(fw, fh, w);
        let dw = x1 - x0;
        let dh = y1 - y0;
        let color = palette(w.id.0);
        let p1 = painted(pix, fw, fh, x0, y0, dw, dh, color);
        let p2 = painted(p1, fw, fh, x0, y0, dw, 1, border());
        let p3 = painted(p2, fw, fh, x0, y1 - 1, dw, 1, border());
        let p4 = painted(p3, fw, fh, x0, y0, 1, dh, border());
        let p5 = painted(p4, fw, fh, x1 - 1, y0, 1, dh, border());
        painted(p5, fw, fh, x0, y0, dw, min_int(TITLE_BAR_H as int, dh), title_of(color))
    } else {
        pix
    }
}

/// On a framebuffer of `fw` x `fh` pixels, painting rectangle
/// `(x, y, w, h)` with a non-negative origin reaches channel `c` of pixel
/// `(px, py)` exactly when the pixel lies in the rectangle.
proof fn lemma_covers_pixel(fw: int, fh: int, x: int, y: int, w: int, h: int, px: int, py: int, c: int)
    requires
        fw > 0,
        fh > 0,
        0 <= x,
        0 <= y,
        0 <= px < fw,
        0 <= py < fh,
        0 <= c < 4,
    ensures
        covers(fw * fh * 4, fw, fh, x, y, w, h, byte_index(fw, px, py, c)) <==> (w > 0 && h > 0 && x
            <= px < x + w && y <= py < y + h),
{
    lemma_coords(fw, px, py, c);
    let mw = min_int(fw - x, w);
    if x < fw && w > 0 {
        assert(py * fw <= (fh - 1) * fw) by (nonlinear_arith)
            requires
                0 <= py < fh,
                fw > 0,
        ;
        assert((fh - 1) * fw + fw == fw * fh) by (nonlinear_arith);
        assert(byte_index(fw, x + mw, py, 0) == (py * fw + x + mw) * 4);
    }
}

/// Filling rectangle `(x, y, w, h)`, with a non-negative origin, of a
/// whole framebuffer gives channel `c` of each pixel inside the rectangle
/// the colour's channel `c`, and leaves every other pixel as it was.
pub proof fn lemma_fill_pixels(pix: Seq<u8>, fw: int, fh: int, x: int, y: int, w: int, h: int, color: Seq<u8>, px: int, py: int, c: int)
    requires
        fw > 0,
        fh > 0,
        pix.len() == fw * fh * 4,
        0 <= x,
        0 <= y,
        0 <= px < fw,
        0 <= py < fh,
        0 <= c < 4,
    ensures
        painted(pix, fw, fh, x, y, w, h, color).len() == pix.len(),
        painted(pix, fw, fh, x, y, w, h, color)[byte_index(fw, px, py, c)] == if x <= px < x + w && y
            <= py < y + h {
            color[c]
        } else {
            pix[byte_index(fw, px, py, c)]
        },
{
    lemma_coords(fw, px, py, c);
    lemma_covers_pixel(fw, fh, x, y, w, h, px, py, c);
    assert(py * fw + px <= (fh - 1) * fw + (fw - 1)) by (nonlinear_arith)
        requires
            0 <= py < fh,
            0 <= px < fw,
    ;
    assert((fh - 1) * fw + fw == fw * fh) by (nonlinear_arith);
}

/// The colour of channel `c` of a window's title bar: each colour channel
/// of its body colour lowered by 20 (stopping at 0), fully opaque.
pub open spec fn title_channel(id: u32, c: int) -> u8 {
    if c == 3 {
        255u8
    } else if palette(id)[c] >= 20 {
        (palette(id)[c] - 20) as u8
    } else {
        0u8
    }
}

/// What painting a window leaves in each pixel of a framebuffer: inside
/// the visible part of the window, the top rows (up to the title bar's
/// height) are title-bar colour, the left, right and bottom edges are
/// border colour, and the rest is the window's body colour; every pixel
/// outside it, and every pixel of a window that is not drawn, is left as
/// it was.
pub proof fn lemma_window_pixels(pix: Seq<u8>, fw: int, fh: int, w: Window, px: int, py: int, c: int)
    requires
        fw > 0,
        fh > 0,
        pix.len() == fw * fh * 4,
        0 <= px < fw,
        0 <= py < fh,
        0 <= c < 4,
    ensures
        ({
            let (x0, y0, x1, y1) = clip(fw, fh, w);
            let k = byte_index(fw, px, py, c);
            let v = window_painted(pix, fw, fh, w)[k];
            let inside = drawn(fw, fh, w) && x0 <= px < x1 && y0 <= py < y1;
            &&& window_painted(pix, fw, fh, w).len() == pix.len()
            &&& inside && py < y0 + TITLE_BAR_H ==> v == title_channel(w.id.0, c)
            &&& inside && py >= y0 + TITLE_BAR_H && (px == x0 || px == x1 - 1 || py == y1 - 1) ==> v
                == border()[c]
            &&& inside && py >= y0 + TITLE_BAR_H && x0 < px < x1 - 1 && py < y1 - 1 ==> v
                == palette(w.id.0)[c]
            &&& !inside ==> v == pix[k]
        }),
{
    let (x0, y0, x1, y1) = clip(fw, fh, w);
    let k = byte_index(fw, px, py, c);
    lemma_coords(fw, px, py, c);
    assert(py * fw + px <= (fh - 1) * fw + (fw - 1)) by (nonlinear_arith)
        requires
            0 <= py < fh,
            0 <= px < fw,
    ;
    assert((fh - 1) * fw + fw == fw * fh) by (nonlinear_arith);
    assert(0 <= k < pix.len());
    if drawn(fw, fh, w) {
        let dw = x1 - x0;
        let dh = y1 - y0;
        let th = min_int(TITLE_BAR_H as int, dh);
        let len = pix.len() as int;
        assert(x0 >= 0 && y0 >= 0 && x1 <= fw && y1 <= fh);
        let color = palette(w.id.0);
        let p1 = painted(pix, fw, fh, x0, y0, dw, dh, color);
        let p2 = painted(p1, fw, fh, x0, y0, dw, 1, border());
        let p3 = painted(p2, fw, fh, x0, y1 - 1, dw, 1, border());
        let p4 = painted(p3, fw, fh, x0, y0, 1, dh, border());
        let p5 = painted(p4, fw, fh, x1 - 1, y0, 1, dh, border());
        let p6 = painted(p5, fw, fh, x0, y0, dw, th, title_of(color));
        assert(window_painted(pix, fw, fh, w) == p6);
        lemma_covers_pixel(fw, fh, x0, y0, dw, dh, px, py, c);
        lemma_covers_pixel(fw, fh, x0, y0, dw, 1, px, py, c);
        lemma_covers_pixel(fw, fh, x0, y1 - 1, dw, 1, px, py, c);
        lemma_covers_pixel(fw, fh, x0, y0, 1, dh, px, py, c);
        lemma_covers_pixel(fw, fh, x1 - 1, y0, 1, dh, px, py, c);
        lemma_covers_pixel(fw, fh, x0, y0, dw, th, px, py, c);
        assert(p1[k] == if covers(len, fw, fh, x0, y0, dw, dh, k) { color[k % 4] } else { pix[k] });
        assert(p2[k] == if covers(len, fw, fh, x0, y0, dw, 1, k) { border()[k % 4] } else { p1[k] });
        assert(p3[k] == if covers(len, fw, fh, x0, y1 - 1, dw, 1, k) { border()[k % 4] } else { p2[k] });
        assert(p4[k] == if covers(len, fw, fh, x0, y0, 1, dh, k) { border()[k % 4] } else { p3[k] });
        assert(p5[k] == if covers(len, fw, fh, x1 - 1, y0, 1, dh, k) { border()[k % 4] } else { p4[k] });
        assert(p6[k] == if covers(len, fw, fh, x0, y0, dw, th, k) { title_of(color)[k % 4] } else { p5[k] });
        assert(title_of(color)[c] == title_channel(w.id.0, c));
    }
}

/// `pix` with the windows `ws` painted in order, later ones on top.
pub open spec fn all_painted(pix: Seq<u8>, fw: int, fh: int, ws: Seq<&Window>) -> Seq<u8>
    decreases ws.len(),
{
    if ws.len() == 0 {
        pix
    } else {
        window_painted(all_painted(pix, fw, fh, ws.drop_last()), fw, fh, *ws.last())
    }
}

/// The damage the windows `ws` cause: the full bounds of each drawn one.
pub open spec fn window_damage(fw: int, fh: int, ws: Seq<&Window>) -> Seq<Rect>
    decreases ws.len(),
{
    if ws.len() == 0 {
        Seq::empty()
    } else {
        let w = *ws.last();
        let rest = window_damage(fw, fh, ws.drop_last());
        if drawn(fw, fh, w) {
            rest.push(Rect { x: w.x, y: w.y, w: w.width, h: w.height })
        } else {
            rest
        }
    }
}

/// Every whole pixel of `pix` set to `color`.
pub open spec fn solid(pix: Seq<u8>, color: Seq<u8>) -> Seq<u8> {
    Seq::new(
        pix.len(),
        |k: int|
            if k < (pix.len() / 4) * 4 {
                color[k % 4]
            } else {
                pix[k]
            },
    )
}

fn palette_color(id: u32) -> (c: [u8; 4])
    ensures
        c@ == palette(id),
{
    let i = id % 6;
    let c = if i == 0 {
        [56u8, 78u8, 120u8, 255u8]
    } else if i == 1 {
        [72u8, 56u8, 96u8, 255u8]
    } else if i == 2 {
        [56u8, 100u8, 96u8, 255u8]
    } else if i == 3 {
        [108u8, 88u8, 56u8, 255u8]
    } else if i == 4 {
        [72u8, 96u8, 56u8, 255u8]
    } else {
        [56u8, 56u8, 84u8, 255u8]
    };
    assert(c@ =~= palette(id));
    c
}

fn border_color() -> (c: [u8; 4])
    ensures
        c@ == border(),
{
    let c = [40u8, 40u8, 56u8, 255u8];
    assert(c@ =~= border());
    c
}

fn background_color() -> (c: [u8; 4])
    ensures
        c@ == background(),
{
    let c = [16u8, 16u8, 24u8, 255u8];
    assert(c@ =~= background());
    c
}

fn title_color(color: [u8; 4]) -> (c: [u8; 4])
    ensures
        c@ == title_of(color@),
{
    let c = [
        color[0].saturating_sub(20),
        color[1].saturating_sub(20),
        color[2].saturating_sub(20),
        255u8,
    ];
    assert(c@ =~= title_of(color@));
    c
}

/// Paint one window as `window_painted` describes; returns whether it was drawn.
fn paint_window(fb: &mut Framebuffer, window: &Window) -> (d: bool)
    requires
        window.width > 0 && window.height > 0 ==> window.edges_fit(),
    ensures
        d == drawn(old(fb).width as int, old(fb).height as int, *window),
        final(fb).width == old(fb).width,
        final(fb).height == old(fb).height,
        final(fb).sequence == old(fb).sequence,
        final(fb).pixels@ == window_painted(
            old(fb).pixels@,
            old(fb).width as int,
            old(fb).height as int,
            *window,
        ),
{
    let win_w = window.width;
    let win_h = window.height;
    if win_w == 0 || win_h == 0 {
        return false;
    }
    let color = palette_color(window.id.0);
    let title = title_color(color);
    let fb_w = fb.width as i32;
    let fb_h = fb.height as i32;
    let ox = window.x;
    let oy = window.y;
    let x0 = if ox > 0 { ox } else { 0 };
    let y0 = if oy > 0 { oy } else { 0 };
    let ex = ox + to_i32(win_w);
    let ey = oy + to_i32(win_h);
    let x1 = if ex < fb_w { ex } else { fb_w };
    let y1 = if ey < fb_h { ey } else { fb_h };
    if x1 <= x0 || y1 <= y0 {
        return false;
    }
    let draw_w = (x1 - x0) as u32;
    let draw_h = (y1 - y0) as u32;
    let b = border_color();
    fill_rect(fb, x0 as u32, y0 as u32, draw_w, draw_h, color);
    if draw_w >= 1 {
        fill_rect(fb, x0 as u32, y0 as u32, draw_w, 1, b);
        fill_rect(fb, x0 as u32, y1 as u32 - 1, draw_w, 1, b);
    }
    if draw_h >= 1 {
        fill_rect(fb, x0 as u32, y0 as u32, 1, draw_h, b);
        fill_rect(fb, x1 as u32 - 1, y0 as u32, 1, draw_h, b);
    }
    let tb_h = if TITLE_BAR_H < draw_h { TITLE_BAR_H } else { draw_h };
    fill_rect(fb, x0 as u32, y0 as u32, draw_w, tb_h, title);
    true
}

/// Paint one frame: the background, then every shown window from the
/// bottom of the stacking order up. Returns the damage: the full screen,
/// then the bounds of each window that left pixels on the framebuffer.
pub fn paint_frame(fb: &mut Framebuffer, wm: &WindowManager) -> (damage: Vec<Rect>)
    requires
        wm.wf(),
        forall|k: u32| #[trigger]
            wm.windows_view().contains_key(k) ==> wm.windows_view()[k].paint_fits(),
    ensures
        final(fb).width == old(fb).width,
        final(fb).height == old(fb).height,
        final(fb).sequence == old(fb).sequence.wrapping_add(1),
        exists|s: Seq<&Window>|
            {
                &&& lists_exactly(s, wm.windows_view(), |w: Window| shown(w))
                &&& sorted_by_z(s, false)
                &&& final(fb).pixels@ == all_painted(
                    solid(old(fb).pixels@, background()),
                    old(fb).width as int,
                    old(fb).height as int,
                    s,
                )
                &&& damage@ == seq![Rect::full_spec(old(fb).width as u32, old(fb).height as u32)]
                    + window_damage(old(fb).width as int, old(fb).height as int, s)
            },
{
    let mut damage: Vec<Rect> = Vec::new();
    let ghost pix0 = fb.pixels@;
    fb.fill_solid(background_color());
    assert(fb.pixels@ =~= solid(pix0, background()));
    damage.push(Rect::full(fb.width as u32, fb.height as u32));
    let stacked = wm.get_stacked_windows();
    let ghost fw = fb.width as int;
    let ghost fh = fb.height as int;
    let mut i: usize = 0;
    while i < stacked.len()
        invariant
            wm.wf(),
            forall|k: u32| #[trigger]
                wm.windows_view().contains_key(k) ==> wm.windows_view()[k].paint_fits(),
            lists_exactly(stacked@, wm.windows_view(), |w: Window| shown(w)),
            fb.width == fw,
            fb.height == fh,
            fb.sequence == old(fb).sequence.wrapping_add(1),
            i <= stacked@.len(),
            fb.pixels@ == all_painted(solid(pix0, background()), fw, fh, stacked@.subrange(0, i as int)),
            damage@ == seq![Rect::full_spec(fw as u32, fh as u32)] + window_damage(
                fw,
                fh,
                stacked@.subrange(0, i as int),
            ),
        decreases stacked@.len() - i,
    {
        let window = stacked[i];
        assert(wm.windows_view().contains_key(stacked@[i as int].id.0));
        let d = paint_window(fb, window);
        if d {
            damage.push(Rect::new(window.x, window.y, window.width, window.height));
        }
        proof {
            let pre = stacked@.subrange(0, i as int);
            let post = stacked@.subrange(0, i + 1);
            assert(post.drop_last() =~= pre);
        }
        i += 1;
    }
    assert(stacked@.subrange(0, stacked@.len() as int) =~= stacked@);
    damage
}

impl Rect {
    pub open spec fn full_spec(width: u32, height: u32) -> Rect {
        Rect { x: 0, y: 0, w: width, h: height }
    }
}

} // verus!
