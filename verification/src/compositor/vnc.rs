//! The framebuffer shared with VNC clients, and the RFB 3.8 protocol logic
//! (security `None`, `Raw` encoding) of the in-process VNC server.

use vstd::prelude::*;
use vstd::arithmetic::div_mod::{lemma_fundamental_div_mod, lemma_fundamental_div_mod_converse};
use vstd::slice::slice_subrange;
use crate::compositor::input::{ButtonState, InputEventType, KeyState, no_modifiers, ModifiersState};
use crate::compositor::render::Rect;

verus! {

pub const DEFAULT_WIDTH: u16 = 1024;
pub const DEFAULT_HEIGHT: u16 = 768;

/// RGBX8 packed framebuffer: 4 bytes per pixel, rows top to bottom.
#[derive(Debug)]
pub struct Framebuffer {
    pub width: u16,
    pub height: u16,
    pub pixels: Vec<u8>,
    pub sequence: u64,
}

/// The byte index of channel `c` of pixel `(px, py)` in a framebuffer `fw` wide.
pub open spec fn byte_index(fw: int, px: int, py: int, c: int) -> int {
    (py * fw + px) * 4 + c
}

/// Column of the pixel holding byte `k`.
pub open spec fn col_of(fw: int, k: int) -> int {
    (k / 4) % fw
}

/// Row of the pixel holding byte `k`.
pub open spec fn row_of(fw: int, k: int) -> int {
    (k / 4) / fw
}

/// Byte `k` of a pixel decomposes into column, row and channel.
pub proof fn lemma_decompose(fw: int, k: int)
    requires
        fw > 0,
        k >= 0,
    ensures
        k == byte_index(fw, col_of(fw, k), row_of(fw, k), k % 4),
        0 <= col_of(fw, k) < fw,
        row_of(fw, k) >= 0,
        0 <= k % 4 < 4,
{
    lemma_fundamental_div_mod(k, 4);
    lemma_fundamental_div_mod(k / 4, fw);
    let p = k / 4;
    let q = p / fw;
    let r = p % fw;
    assert(p == fw * q + r);
    assert(k == 4 * p + k % 4);
    assert(q * fw == fw * q) by (nonlinear_arith);
    assert(q >= 0) by (nonlinear_arith)
        requires
            p >= 0,
            fw > 0,
            q == p / fw,
    ;
}

/// The coordinates of a byte index are recovered from it.
pub proof fn lemma_coords(fw: int, px: int, py: int, c: int)
    requires
        fw > 0,
        0 <= px < fw,
        py >= 0,
        0 <= c < 4,
    ensures
        col_of(fw, byte_index(fw, px, py, c)) == px,
        row_of(fw, byte_index(fw, px, py, c)) == py,
        byte_index(fw, px, py, c) % 4 == c,
        byte_index(fw, px, py, c) >= 0,
{
    let p = py * fw + px;
    assert(py * fw >= 0) by (nonlinear_arith)
        requires
            py >= 0,
            fw > 0,
    ;
    lemma_fundamental_div_mod_converse(p * 4 + c, 4, p, c);
    lemma_fundamental_div_mod_converse(p, fw, py, px);
}

impl Framebuffer {
    /// The pixel buffer holds exactly `width * height` pixels.
    pub open spec fn wf(&self) -> bool {
        self.pixels@.len() == self.width as int * self.height as int * 4
    }

    /// Every pixel of a fresh framebuffer has colour `fill`.
    pub fn new(width: u16, height: u16, fill: [u8; 4]) -> (fb: Self)
        requires
            width as int * height as int * 4 <= usize::MAX,
        ensures
            fb.wf(),
            fb.width == width,
            fb.height == height,
            fb.sequence == 1,
            forall|k: int| 0 <= k < fb.pixels@.len() ==> #[trigger] fb.pixels@[k] == fill@[k % 4],
    {
        let n = width as usize * height as usize * 4;
        let mut fb = Framebuffer { width, height, pixels: vec![0u8; n], sequence: 0 };
        fb.fill_solid(fill);
        assert((n as int / 4) * 4 == n) by (nonlinear_arith)
            requires
                n == width as int * height as int * 4,
        ;
        fb
    }

    /// Set every whole pixel to `color`, and count one more frame.
    pub fn fill_solid(&mut self, color: [u8; 4])
        ensures
            final(self).width == old(self).width,
            final(self).height == old(self).height,
            final(self).pixels@.len() == old(self).pixels@.len(),
            final(self).sequence == old(self).sequence.wrapping_add(1),
            forall|k: int|
                0 <= k < old(self).pixels@.len() ==> #[trigger] final(self).pixels@[k] == if k < (
                old(self).pixels@.len() / 4) * 4 {
                    color@[k % 4]
                } else {
                    old(self).pixels@[k]
                },
    {
        let len = self.pixels.len();
        let whole = (len / 4) * 4;
        let mut i: usize = 0;
        while i < whole
            invariant
                len == self.pixels@.len(),
                len == old(self).pixels@.len(),
                whole == (len / 4) * 4,
                i <= whole,
                self.width == old(self).width,
                self.height == old(self).height,
                self.sequence == old(self).sequence,
                forall|k: int|
                    0 <= k < len ==> #[trigger] self.pixels@[k] == if k < i {
                        color@[k % 4]
                    } else {
                        old(self).pixels@[k]
                    },
            decreases whole - i,
        {
            self.pixels.set(i, color[i % 4]);
            i += 1;
        }
        self.sequence = self.sequence.wrapping_add(1);
    }

    /// Paint row `y` in `row_colors[y]` for every row, and count one more
    /// frame; a framebuffer without rows is left as it is.
    pub fn paint_rows(&mut self, row_colors: &Vec<[u8; 4]>)
        requires
            old(self).wf(),
            row_colors@.len() == old(self).height,
        ensures
            final(self).width == old(self).width,
            final(self).height == old(self).height,
            final(self).wf(),
            old(self).height == 0 ==> final(self).sequence == old(self).sequence,
            old(self).height != 0 ==> final(self).sequence == old(self).sequence.wrapping_add(1),
            forall|k: int|
                0 <= k < final(self).pixels@.len() ==> #[trigger] final(self).pixels@[k]
                    == row_colors@[row_of(old(self).width as int, k)]@[k % 4],
    {
        let h = self.height as usize;
        if h == 0 {
            assert(self.width as int * 0 * 4 == 0) by (nonlinear_arith);
            return;
        }
        let w = self.width as usize;
        let len = self.pixels.len();
        let ghost fw = w as int;
        if w == 0 {
            assert(0 * self.height as int * 4 == 0) by (nonlinear_arith);
            self.sequence = self.sequence.wrapping_add(1);
            return;
        }
        let mut i: usize = 0;
        while i < len
            invariant
                len == self.pixels@.len(),
                len == w as int * h as int * 4,
                w == self.width,
                h == self.height,
                w > 0,
                h > 0,
                row_colors@.len() == h,
                i <= len,
                self.sequence == old(self).sequence,
                forall|k: int|
                    0 <= k < i ==> #[trigger] self.pixels@[k] == row_colors@[row_of(
                        w as int,
                        k,
                    )]@[k % 4],
            decreases len - i,
        {
            let y = (i / 4) / w;
            proof {
                lemma_decompose(w as int, i as int);
                assert(row_of(w as int, i as int) < h) by {
                    let r = row_of(w as int, i as int);
                    let c = col_of(w as int, i as int);
                    if r >= h {
                        assert(byte_index(w as int, c, r, i as int % 4) >= (r * w as int) * 4)
                            by (nonlinear_arith)
                            requires
                                c >= 0,
                                i as int % 4 >= 0,
                        ;
                        assert(r * w as int >= h as int * w as int) by (nonlinear_arith)
                            requires
                                r >= h,
                                w > 0,
                        ;
                        assert(h as int * w as int * 4 == w as int * h as int * 4)
                            by (nonlinear_arith);
                    }
                }
            }
            self.pixels.set(i, row_colors[y][i % 4]);
            i += 1;
        }
        self.sequence = self.sequence.wrapping_add(1);
    }
}

/// Byte offset where row `row` of a rectangle at `(x, y)` starts.
pub open spec fn row_start(fw: int, x: int, y: int, row: int) -> int {
    (y + row) * fw * 4 + x * 4
}

/// The bytes of rows `0..n` of the `w`-pixel-wide rectangle at `(x, y)`.
pub open spec fn rect_rows(pix: Seq<u8>, fw: int, x: int, y: int, w: int, n: int) -> Seq<u8>
    decreases n,
{
    if n <= 0 {
        Seq::empty()
    } else {
        rect_rows(pix, fw, x, y, w, n - 1) + pix.subrange(
            row_start(fw, x, y, n - 1),
            row_start(fw, x, y, n - 1) + w * 4,
        )
    }
}

/// Rows `0..n` of that rectangle lie within `len` bytes.
pub open spec fn rows_fit(len: int, fw: int, x: int, y: int, w: int, n: int) -> bool {
    forall|r: int| 0 <= r < n ==> #[trigger] row_start(fw, x, y, r) + w * 4 <= len
}

impl Framebuffer {
    /// The pixels of rectangle `(x, y, w, h)`, row by row; fails at the
    /// first row that runs past the pixel buffer, naming its offset.
    pub fn snapshot(&self, x: u16, y: u16, w: u16, h: u16) -> (r: Result<Vec<u8>, RfbError>)
        ensures
            match r {
                Ok(v) => rows_fit(self.pixels@.len() as int, self.width as int, x as int, y as int, w as int, h as int)
                    && v@ == rect_rows(self.pixels@, self.width as int, x as int, y as int, w as int, h as int),
                Err(e) => exists|r0: int|
                    0 <= r0 < h && rows_fit(self.pixels@.len() as int, self.width as int, x as int, y as int, w as int, r0)
                        && row_start(self.width as int, x as int, y as int, r0) + w * 4 > self.pixels@.len()
                        && e == RfbError::OutOfBounds {
                        offset: row_start(self.width as int, x as int, y as int, r0) as u64,
                        len: (w * 4) as u64,
                    },
            },
    {
        let fw = self.width as u64;
        let len = self.pixels.len();
        let mut buf: Vec<u8> = Vec::new();
        let mut row: u16 = 0;
        while row < h
            invariant
                fw == self.width,
                len == self.pixels@.len(),
                row <= h,
                rows_fit(len as int, fw as int, x as int, y as int, w as int, row as int),
                buf@ == rect_rows(self.pixels@, fw as int, x as int, y as int, w as int, row as int),
            decreases h - row,
        {
            assert((y as int + row as int) * fw * 4 <= 0x1_ffff * 0xffff * 4) by (nonlinear_arith)
                requires
                    y as int + row as int <= 0x1_ffff,
                    fw <= 0xffff,
            ;
            let offset: u64 = (y as u64 + row as u64) * fw * 4 + x as u64 * 4;
            let end: u64 = offset + w as u64 * 4;
            assert(offset == row_start(fw as int, x as int, y as int, row as int));
            if end > len as u64 {
                return Err(RfbError::OutOfBounds { offset, len: w as u64 * 4 });
            }
            let part = slice_subrange(self.pixels.as_slice(), offset as usize, end as usize);
            buf.extend_from_slice(part);
            row += 1;
        }
        Ok(buf)
    }
}

/// Largest width or height served for one rectangle.
pub const MAX_RECT_DIM: u16 = 4096;

/// The `LastRect` pseudo-encoding that ends an update.
pub const ENC_LAST_RECT: i32 = -224;

/// Why a VNC session stops.
#[derive(Debug, Clone, Copy, PartialEq, Eq, Structural)]
pub enum RfbError {
    /// The client picked a security type other than `None`.
    UnsupportedSecurity(u8),
    /// The client sent a message type this server does not know.
    UnknownMessage(u8),
    /// A requested rectangle row runs past the pixel buffer.
    OutOfBounds { offset: u64, len: u64 },
}

/// The big-endian bytes of a 16-bit value.
pub open spec fn be16(v: int) -> Seq<u8> {
    seq![(v / 256) as u8, (v % 256) as u8]
}

/// The big-endian bytes of a 32-bit value.
pub open spec fn be32(v: int) -> Seq<u8> {
    seq![
        (v / 0x100_0000) as u8,
        ((v / 0x1_0000) % 256) as u8,
        ((v / 256) % 256) as u8,
        (v % 256) as u8,
    ]
}

/// The value of two big-endian bytes.
pub open spec fn u16_of(hi: u8, lo: u8) -> int {
    hi * 256 + lo
}

/// The value of four big-endian bytes starting at `i`.
pub open spec fn u32_at(b: Seq<u8>, i: int) -> int {
    b[i] * 0x100_0000 + b[i + 1] * 0x1_0000 + b[i + 2] * 256 + b[i + 3]
}

/// Reading back big-endian bytes gives the value written.
pub proof fn lemma_be16_round_trip(v: u16)
    ensures
        u16_of(be16(v as int)[0], be16(v as int)[1]) == v,
{
}

/// Reading back big-endian bytes gives the value written.
pub proof fn lemma_be32_round_trip(v: u32)
    ensures
        u32_at(be32(v as int), 0) == v,
{
}

fn be16_bytes(v: u16) -> (b: Vec<u8>)
    ensures
        b@ == be16(v as int),
{
    let mut b: Vec<u8> = Vec::new();
    b.push((v / 256) as u8);
    b.push((v % 256) as u8);
    b
}

fn be32_bytes(v: u32) -> (b: Vec<u8>)
    ensures
        b@ == be32(v as int),
{
    let mut b: Vec<u8> = Vec::new();
    b.push((v / 0x100_0000) as u8);
    b.push(((v / 0x1_0000) % 256) as u8);
    b.push(((v / 256) % 256) as u8);
    b.push((v % 256) as u8);
    b
}

/// The two's-complement bits of an `i32`, as an unsigned value.
pub open spec fn twos(v: i32) -> int {
    if v < 0 {
        v + 0x1_0000_0000
    } else {
        v as int
    }
}

fn i32_bits(v: i32) -> (r: u32)
    ensures
        r == twos(v),
{
    let r = #[verifier::truncate] (v as u32);
    assert(v >= 0 ==> r == v) by (bit_vector)
        requires
            r == #[verifier::truncate] (v as u32),
    ;
    assert(v < 0 ==> r as int == v as int + 0x1_0000_0000) by (bit_vector)
        requires
            r == #[verifier::truncate] (v as u32),
    ;
    r
}

/// The server's protocol version line.
pub open spec fn version_line() -> Seq<u8> {
    seq![0x52u8, 0x46, 0x42, 0x20, 0x30, 0x30, 0x33, 0x2e, 0x30, 0x30, 0x38, 0x0a]
}

/// `RFB 003.008\n`: the first thing the server sends.
pub fn server_version() -> (b: Vec<u8>)
    ensures
        b@ == version_line(),
{
    let b: Vec<u8> = vec![0x52u8, 0x46, 0x42, 0x20, 0x30, 0x30, 0x33, 0x2e, 0x30, 0x30, 0x38, 0x0a];
    assert(b@ =~= version_line());
    b
}

/// The security types offered: one type, `None` (1).
pub fn security_offer() -> (b: Vec<u8>)
    ensures
        b@ == seq![1u8, 1u8],
{
    let b: Vec<u8> = vec![1u8, 1u8];
    assert(b@ =~= seq![1u8, 1u8]);
    b
}

/// Accept the client's choice of security type: only `None` (1) passes.
pub fn check_security(chosen: u8) -> (r: Result<(), RfbError>)
    ensures
        chosen == 1 ==> r is Ok,
        chosen != 1 ==> r == Err::<(), RfbError>(RfbError::UnsupportedSecurity(chosen)),
{
    if chosen != 1 {
        Err(RfbError::UnsupportedSecurity(chosen))
    } else {
        Ok(())
    }
}

/// The security result that reports success: a big-endian zero.
pub fn security_ok() -> (b: Vec<u8>)
    ensures
        b@ == be32(0),
{
    be32_bytes(0)
}

/// The pixel format announced: 32 bits per pixel, depth 24, big-endian,
/// true colour, 255 per channel, red/green/blue shifted 24/16/8.
pub open spec fn pixel_format() -> Seq<u8> {
    seq![32u8, 24, 1, 1, 0x00, 0xff, 0x00, 0xff, 0x00, 0xff, 24, 16, 8, 0, 0, 0]
}

/// The `ServerInit` message.
pub open spec fn server_init_bytes(width: u16, height: u16, name: Seq<u8>) -> Seq<u8> {
    be16(width as int) + be16(height as int) + pixel_format() + be32(name.len() as int % 0x1_0000_0000)
        + name
}

/// `ServerInit`: size, pixel format and the desktop name; the name's
/// length is sent modulo 2^32.
pub fn server_init(width: u16, height: u16, name: &[u8]) -> (b: Vec<u8>)
    ensures
        b@ == server_init_bytes(width, height, name@),
{
    let mut b = be16_bytes(width);
    let mut h = be16_bytes(height);
    b.append(&mut h);
    let mut pf: Vec<u8> = vec![32u8, 24, 1, 1, 0x00, 0xff, 0x00, 0xff, 0x00, 0xff, 24, 16, 8, 0, 0, 0];
    assert(pf@ =~= pixel_format());
    b.append(&mut pf);
    let len = name.len();
    let n = #[verifier::truncate] (len as u32);
    assert(n == len as int % 0x1_0000_0000) by (bit_vector)
        requires
            n == #[verifier::truncate] (len as u32),
    ;
    let mut l = be32_bytes(n);
    b.append(&mut l);
    b.extend_from_slice(name);
    assert(b@ =~= server_init_bytes(width, height, name@));
    b
}

/// A message from a VNC client.
#[derive(Debug, Clone, Copy, PartialEq, Eq, Structural)]
pub enum ClientMessage {
    SetPixelFormat,
    SetEncodings { count: u16 },
    FramebufferUpdateRequest { incremental: bool, x: u16, y: u16, w: u16, h: u16 },
    KeyEvent { down: bool, key: u32 },
    PointerEvent { mask: u8, x: u16, y: u16 },
    ClientCutText { len: u32 },
}

/// What the start of the client's byte stream holds.
#[derive(Debug, Clone, Copy, PartialEq, Eq, Structural)]
pub enum Parsed {
    /// More bytes are needed.
    Incomplete,
    /// The stream starts with an unknown message type.
    Unknown(u8),
    /// A whole message, and how many bytes it takes.
    Message(ClientMessage, usize),
}

/// The message at the start of `b` (RFB 3.8 client-to-server messages).
pub open spec fn spec_parse(b: Seq<u8>) -> Parsed {
    if b.len() == 0 {
        Parsed::Incomplete
    } else if b[0] == 0 {
        if b.len() >= 20 {
            Parsed::Message(ClientMessage::SetPixelFormat, 20)
        } else {
            Parsed::Incomplete
        }
    } else if b[0] == 2 {
        if b.len() < 4 {
            Parsed::Incomplete
        } else {
            let count = u16_of(b[2], b[3]);
            if b.len() >= 4 + 4 * count {
                Parsed::Message(
                    ClientMessage::SetEncodings { count: count as u16 },
                    (4 + 4 * count) as usize,
                )
            } else {
                Parsed::Incomplete
            }
        }
    } else if b[0] == 3 {
        if b.len() >= 10 {
            Parsed::Message(
                ClientMessage::FramebufferUpdateRequest {
                    incremental: b[1] != 0,
                    x: u16_of(b[2], b[3]) as u16,
                    y: u16_of(b[4], b[5]) as u16,
                    w: u16_of(b[6], b[7]) as u16,
                    h: u16_of(b[8], b[9]) as u16,
                },
                10,
            )
        } else {
            Parsed::Incomplete
        }
    } else if b[0] == 4 {
        if b.len() >= 8 {
            Parsed::Message(ClientMessage::KeyEvent { down: b[1] != 0, key: u32_at(b, 4) as u32 }, 8)
        } else {
            Parsed::Incomplete
        }
    } else if b[0] == 5 {
        if b.len() >= 6 {
            Parsed::Message(
                ClientMessage::PointerEvent {
                    mask: b[1],
                    x: u16_of(b[2], b[3]) as u16,
                    y: u16_of(b[4], b[5]) as u16,
                },
                6,
            )
        } else {
            Parsed::Incomplete
        }
    } else if b[0] == 6 {
        if b.len() < 8 {
            Parsed::Incomplete
        } else {
            let len = u32_at(b, 4);
            if b.len() >= 8 + len {
                Parsed::Message(ClientMessage::ClientCutText { len: len as u32 }, (8 + len) as usize)
            } else {
                Parsed::Incomplete
            }
        }
    } else {
        Parsed::Unknown(b[0])
    }
}

/// The fields of client messages are read big-endian from their fixed
/// places on the wire: a `PointerEvent` `[5, mask, xh, xl, yh, yl]` is at
/// `(xh * 256 + xl, yh * 256 + yl)` with buttons `mask`; a `KeyEvent`
/// `[4, down, _, _, k0, k1, k2, k3]` carries key `k0 k1 k2 k3` and is a
/// press when `down` is not zero; a `FramebufferUpdateRequest`
/// `[3, inc, xh, xl, yh, yl, wh, wl, hh, hl]` asks for that rectangle,
/// incrementally when `inc` is not zero. Each takes its fixed length.
pub proof fn lemma_fixed_fields(b: Seq<u8>)
    ensures
        b.len() >= 6 && b[0] == 5 ==> (spec_parse(b) matches Parsed::Message(
            ClientMessage::PointerEvent { mask, x, y },
            n,
        ) && mask == b[1] && x == b[2] * 256 + b[3] && y == b[4] * 256 + b[5] && n == 6),
        b.len() >= 8 && b[0] == 4 ==> (spec_parse(b) matches Parsed::Message(
            ClientMessage::KeyEvent { down, key },
            n,
        ) && down == (b[1] != 0) && key == b[4] * 0x100_0000 + b[5] * 0x1_0000 + b[6] * 256 + b[7]
            && n == 8),
        b.len() >= 10 && b[0] == 3 ==> (spec_parse(b) matches Parsed::Message(
            ClientMessage::FramebufferUpdateRequest { incremental, x, y, w, h },
            n,
        ) && incremental == (b[1] != 0) && x == b[2] * 256 + b[3] && y == b[4] * 256 + b[5] && w
            == b[6] * 256 + b[7] && h == b[8] * 256 + b[9] && n == 10),
        b.len() >= 20 && b[0] == 0 ==> spec_parse(b) == Parsed::Message(ClientMessage::SetPixelFormat, 20),
        1 <= b.len() < 6 && b[0] == 5 ==> spec_parse(b) == Parsed::Incomplete,
        1 <= b.len() < 8 && b[0] == 4 ==> spec_parse(b) == Parsed::Incomplete,
        1 <= b.len() < 10 && b[0] == 3 ==> spec_parse(b) == Parsed::Incomplete,
        1 <= b.len() < 20 && b[0] == 0 ==> spec_parse(b) == Parsed::Incomplete,
{
    if b.len() >= 6 && b[0] == 5 {
        assert(b[2] * 256 + b[3] <= 0xffff);
        assert(b[4] * 256 + b[5] <= 0xffff);
    }
    if b.len() >= 8 && b[0] == 4 {
        assert(b[4] * 0x100_0000 + b[5] * 0x1_0000 + b[6] * 256 + b[7] <= 0xffff_ffff);
    }
    if b.len() >= 10 && b[0] == 3 {
        assert(b[2] * 256 + b[3] <= 0xffff);
        assert(b[4] * 256 + b[5] <= 0xffff);
        assert(b[6] * 256 + b[7] <= 0xffff);
        assert(b[8] * 256 + b[9] <= 0xffff);
    }
}

/// Messages that carry a length take it big-endian from the wire and are
/// whole exactly when that many bytes follow: `SetEncodings`
/// `[2, _, ch, cl, ...]` lists `ch * 256 + cl` four-byte encodings, and
/// `ClientCutText` `[6, _, _, _, l0, l1, l2, l3, ...]` carries `l0 l1 l2 l3`
/// bytes of text. A message of a type the server does not know is
/// reported with that type. (Any byte buffer's length fits a `usize`.)
pub proof fn lemma_counted_fields(b: Seq<u8>)
    requires
        b.len() <= usize::MAX,
    ensures
        b.len() >= 4 && b[0] == 2 ==> {
            let count = b[2] * 256 + b[3];
            if b.len() >= 4 + 4 * count {
                (spec_parse(b) matches Parsed::Message(ClientMessage::SetEncodings { count: c }, n) && c
                    == count && n == 4 + 4 * count)
            } else {
                spec_parse(b) == Parsed::Incomplete
            }
        },
        b.len() >= 8 && b[0] == 6 ==> {
            let len = b[4] * 0x100_0000 + b[5] * 0x1_0000 + b[6] * 256 + b[7];
            if b.len() >= 8 + len {
                (spec_parse(b) matches Parsed::Message(ClientMessage::ClientCutText { len: l }, n) && l
                    == len && n == 8 + len)
            } else {
                spec_parse(b) == Parsed::Incomplete
            }
        },
        b.len() >= 1 && b[0] != 0 && b[0] != 2 && b[0] != 3 && b[0] != 4 && b[0] != 5 && b[0] != 6
            ==> spec_parse(b) == Parsed::Unknown(b[0]),
        b.len() == 0 ==> spec_parse(b) == Parsed::Incomplete,
{
    if b.len() >= 4 && b[0] == 2 {
        assert(b[2] * 256 + b[3] <= 0xffff);
    }
    if b.len() >= 8 && b[0] == 6 {
        assert(b[4] * 0x100_0000 + b[5] * 0x1_0000 + b[6] * 256 + b[7] <= 0xffff_ffff);
    }
}

fn u16_from(hi: u8, lo: u8) -> (r: u16)
    ensures
        r == u16_of(hi, lo),
{
    hi as u16 * 256 + lo as u16
}

fn u32_from(b: &[u8], i: usize) -> (r: u32)
    requires
        i + 4 <= b@.len(),
    ensures
        r == u32_at(b@, i as int),
{
    b[i] as u32 * 0x100_0000 + b[i + 1] as u32 * 0x1_0000 + b[i + 2] as u32 * 256 + b[i + 3] as u32
}

/// The length of the name a client sends in its `ClientInit`, from the
/// two big-endian bytes that follow the shared flag.
pub fn client_name_len(hi: u8, lo: u8) -> (n: u16)
    ensures
        n == u16_of(hi, lo),
{
    u16_from(hi, lo)
}

/// Parse the client message at the start of `buf`.
pub fn parse_client_message(buf: &[u8]) -> (r: Parsed)
    ensures
        r == spec_parse(buf@),
{
    let n = buf.len();
    if n == 0 {
        return Parsed::Incomplete;
    }
    let t = buf[0];
    if t == 0 {
        if n >= 20 {
            Parsed::Message(ClientMessage::SetPixelFormat, 20)
        } else {
            Parsed::Incomplete
        }
    } else if t == 2 {
        if n < 4 {
            Parsed::Incomplete
        } else {
            let count = u16_from(buf[2], buf[3]);
            let total: u64 = 4 + 4 * count as u64;
            if n as u64 >= total {
                Parsed::Message(ClientMessage::SetEncodings { count }, total as usize)
            } else {
                Parsed::Incomplete
            }
        }
    } else if t == 3 {
        if n >= 10 {
            Parsed::Message(
                ClientMessage::FramebufferUpdateRequest {
                    incremental: buf[1] != 0,
                    x: u16_from(buf[2], buf[3]),
                    y: u16_from(buf[4], buf[5]),
                    w: u16_from(buf[6], buf[7]),
                    h: u16_from(buf[8], buf[9]),
                },
                10,
            )
        } else {
            Parsed::Incomplete
        }
    } else if t == 4 {
        if n >= 8 {
            Parsed::Message(ClientMessage::KeyEvent { down: buf[1] != 0, key: u32_from(buf, 4) }, 8)
        } else {
            Parsed::Incomplete
        }
    } else if t == 5 {
        if n >= 6 {
            Parsed::Message(
                ClientMessage::PointerEvent {
                    mask: buf[1],
                    x: u16_from(buf[2], buf[3]),
                    y: u16_from(buf[4], buf[5]),
                },
                6,
            )
        } else {
            Parsed::Incomplete
        }
    } else if t == 6 {
        if n < 8 {
            Parsed::Incomplete
        } else {
            let len = u32_from(buf, 4);
            let total: u64 = 8 + len as u64;
            if n as u64 >= total {
                Parsed::Message(ClientMessage::ClientCutText { len }, total as usize)
            } else {
                Parsed::Incomplete
            }
        }
    } else {
        Parsed::Unknown(t)
    }
}

pub open spec fn min_u(a: int, b: int) -> int {
    if a < b {
        a
    } else {
        b
    }
}

pub open spec fn max_u(a: int, b: int) -> int {
    if a > b {
        a
    } else {
        b
    }
}

/// The region served for a non-incremental request: the origin clamped
/// into the framebuffer, the size capped at `MAX_RECT_DIM` and at the
/// framebuffer's edge, and at least one pixel each way.
pub open spec fn full_region(x: u16, y: u16, w: u16, h: u16, fw: u16, fh: u16) -> (u16, u16, u16, u16) {
    let cx = min_u(x as int, max_u(fw - 1, 0));
    let cy = min_u(y as int, max_u(fh - 1, 0));
    let cw = max_u(min_u(min_u(w as int, MAX_RECT_DIM as int), fw - cx), 1);
    let ch = max_u(min_u(min_u(h as int, MAX_RECT_DIM as int), fh - cy), 1);
    (cx as u16, cy as u16, cw as u16, ch as u16)
}

/// A non-incremental update never reaches outside the framebuffer: on a
/// framebuffer with pixels, the region served for any request lies inside
/// it, is at least one and at most `MAX_RECT_DIM` pixels each way, and
/// every one of its rows lies within the pixel buffer, so taking its
/// snapshot succeeds.
pub proof fn lemma_full_region_fits(x: u16, y: u16, w: u16, h: u16, fw: u16, fh: u16)
    requires
        fw > 0,
        fh > 0,
    ensures
        ({
            let r = full_region(x, y, w, h, fw, fh);
            &&& 1 <= r.2 <= MAX_RECT_DIM && 1 <= r.3 <= MAX_RECT_DIM
            &&& r.0 + r.2 <= fw && r.1 + r.3 <= fh
            &&& rows_fit(fw as int * fh as int * 4, fw as int, r.0 as int, r.1 as int, r.2 as int, r.3 as int)
        }),
{
    let r = full_region(x, y, w, h, fw, fh);
    let len = fw as int * fh as int * 4;
    assert forall|row: int| 0 <= row < r.3 implies #[trigger] row_start(fw as int, r.0 as int, r.1 as int, row) + r.2 * 4 <= len by {
        let yy = r.1 + row;
        assert(yy <= fh - 1);
        assert(r.0 + r.2 <= fw);
        assert(yy * fw <= (fh - 1) * fw) by (nonlinear_arith)
            requires
                yy <= fh - 1,
                fw > 0,
        ;
        assert((fh - 1) * fw + fw == fw * fh) by (nonlinear_arith);
        assert(row_start(fw as int, r.0 as int, r.1 as int, row) == (yy * fw + r.0) * 4);
    }
}

/// The region to send for a non-incremental update request on an
/// `fw` x `fh` framebuffer.
pub fn full_update_region(x: u16, y: u16, w: u16, h: u16, fw: u16, fh: u16) -> (r: (u16, u16, u16, u16))
    ensures
        r == full_region(x, y, w, h, fw, fh),
{
    let cx = if x < fw.saturating_sub(1) { x } else { fw.saturating_sub(1) };
    let cy = if y < fh.saturating_sub(1) { y } else { fh.saturating_sub(1) };
    let mut cw = if w < MAX_RECT_DIM { w } else { MAX_RECT_DIM };
    if fw - cx < cw {
        cw = fw - cx;
    }
    if cw < 1 {
        cw = 1;
    }
    let mut ch = if h < MAX_RECT_DIM { h } else { MAX_RECT_DIM };
    if fh - cy < ch {
        ch = fh - cy;
    }
    if ch < 1 {
        ch = 1;
    }
    (cx, cy, cw, ch)
}

/// The region sent for one damage rectangle: the origin clamped into the
/// framebuffer, the size capped at `MAX_RECT_DIM`; nothing for an empty one.
pub open spec fn damage_region_spec(r: Rect, fw: u16, fh: u16) -> Option<(u16, u16, u16, u16)> {
    let cx = max_u(min_u(max_u(r.x as int, 0), fw - 1), 0);
    let cy = max_u(min_u(max_u(r.y as int, 0), fh - 1), 0);
    let cw = min_u(r.w as int, MAX_RECT_DIM as int);
    let ch = min_u(r.h as int, MAX_RECT_DIM as int);
    if cw == 0 || ch == 0 {
        None
    } else {
        Some((cx as u16, cy as u16, cw as u16, ch as u16))
    }
}

pub fn damage_region(r: Rect, fw: u16, fh: u16) -> (o: Option<(u16, u16, u16, u16)>)
    ensures
        o == damage_region_spec(r, fw, fh),
{
    let px = if r.x > 0 { r.x } else { 0 };
    let lim_x = fw as i32 - 1;
    let cx0 = if px < lim_x { px } else { lim_x };
    let cx = if cx0 > 0 { cx0 } else { 0 };
    let py = if r.y > 0 { r.y } else { 0 };
    let lim_y = fh as i32 - 1;
    let cy0 = if py < lim_y { py } else { lim_y };
    let cy = if cy0 > 0 { cy0 } else { 0 };
    let cw = if r.w < MAX_RECT_DIM as u32 { r.w } else { MAX_RECT_DIM as u32 };
    let ch = if r.h < MAX_RECT_DIM as u32 { r.h } else { MAX_RECT_DIM as u32 };
    if cw == 0 || ch == 0 {
        None
    } else {
        Some((cx as u16, cy as u16, cw as u16, ch as u16))
    }
}

/// The `FramebufferUpdate` header announcing `count` rectangles.
pub fn update_header(count: u16) -> (b: Vec<u8>)
    ensures
        b@ == seq![0u8, 0u8] + be16(count as int),
{
    let mut b: Vec<u8> = vec![0u8, 0u8];
    let mut c = be16_bytes(count);
    b.append(&mut c);
    assert(b@ =~= seq![0u8, 0u8] + be16(count as int));
    b
}

/// What one incremental update sends: the header (the rectangle count is
/// the damage list's length modulo 2^16), the regions of the non-empty
/// damage rectangles in order, and whether a `LastRect` marker follows.
pub struct IncrementalUpdate {
    pub header: Vec<u8>,
    pub regions: Vec<(u16, u16, u16, u16)>,
    pub terminate: bool,
}

/// The regions of the non-empty damage rectangles, in order.
pub open spec fn damage_regions(d: Seq<Rect>, fw: u16, fh: u16) -> Seq<(u16, u16, u16, u16)>
    decreases d.len(),
{
    if d.len() == 0 {
        Seq::empty()
    } else {
        let rest = damage_regions(d.drop_last(), fw, fh);
        match damage_region_spec(d.last(), fw, fh) {
            Some(r) => rest.push(r),
            None => rest,
        }
    }
}

/// Plan the reply to an incremental request with damage `dirty`.
pub fn incremental_update(dirty: &Vec<Rect>, fw: u16, fh: u16) -> (u: IncrementalUpdate)
    ensures
        u.header@ == seq![0u8, 0u8] + be16(dirty@.len() as int % 0x1_0000),
        u.regions@ == damage_regions(dirty@, fw, fh),
        u.terminate == (dirty@.len() as int % 0x1_0000 > 0),
{
    let n = dirty.len();
    let count = #[verifier::truncate] (n as u16);
    assert(count == n as int % 0x1_0000) by (bit_vector)
        requires
            count == #[verifier::truncate] (n as u16),
    ;
    let header = update_header(count);
    let mut regions: Vec<(u16, u16, u16, u16)> = Vec::new();
    let mut i: usize = 0;
    while i < n
        invariant
            n == dirty@.len(),
            i <= n,
            regions@ == damage_regions(dirty@.subrange(0, i as int), fw, fh),
        decreases n - i,
    {
        let ghost pre = dirty@.subrange(0, i as int);
        if let Some(r) = damage_region(dirty[i], fw, fh) {
            regions.push(r);
        }
        assert(dirty@.subrange(0, i + 1).drop_last() =~= pre);
        i += 1;
    }
    assert(dirty@.subrange(0, n as int) =~= dirty@);
    IncrementalUpdate { header, regions, terminate: count > 0 }
}

/// One raw rectangle as sent inside an update: the rectangle header with
/// the `Raw` encoding, then the pixels.
pub open spec fn raw_rect_bytes(x: u16, y: u16, w: u16, h: u16, pixels: Seq<u8>) -> Seq<u8> {
    be16(x as int) + be16(y as int) + be16(w as int) + be16(h as int)
        + be32(0) + pixels
}

pub fn raw_rect_message(x: u16, y: u16, w: u16, h: u16, pixels: &[u8]) -> (b: Vec<u8>)
    ensures
        b@ == raw_rect_bytes(x, y, w, h, pixels@),
{
    let mut b = be16_bytes(x);
    let mut p = be16_bytes(y);
    b.append(&mut p);
    let mut p = be16_bytes(w);
    b.append(&mut p);
    let mut p = be16_bytes(h);
    b.append(&mut p);
    let mut e = be32_bytes(0);
    b.append(&mut e);
    b.extend_from_slice(pixels);
    assert(b@ =~= raw_rect_bytes(x, y, w, h, pixels@));
    b
}

/// The `LastRect` marker: a rectangle header with x, y, width and height
/// all zero (two bytes each), then the encoding -224.
pub fn last_rect_marker() -> (b: Vec<u8>)
    ensures
        b@ == seq![0u8, 0u8, 0u8, 0u8, 0u8, 0u8, 0u8, 0u8] + be32(twos(ENC_LAST_RECT)),
{
    let mut b: Vec<u8> = vec![0u8, 0u8, 0u8, 0u8, 0u8, 0u8, 0u8, 0u8];
    let mut e = be32_bytes(i32_bits(ENC_LAST_RECT));
    b.append(&mut e);
    assert(b@ =~= seq![0u8, 0u8, 0u8, 0u8, 0u8, 0u8, 0u8, 0u8] + be32(twos(ENC_LAST_RECT)));
    b
}

/// Whether bit `i` of `m` is set.
pub open spec fn bit_set(m: u8, i: u8) -> bool {
    (m >> i) & 1u8 == 1u8
}

/// Button transitions between two RFB button masks, for bits `i` to 7:
/// button `i + 1` for each bit that differs, pressed when it is now set.
pub open spec fn transitions_from(last: u8, mask: u8, i: int) -> Seq<(u32, ButtonState)>
    decreases 8 - i,
{
    if i < 0 || i >= 8 {
        Seq::empty()
    } else {
        let rest = transitions_from(last, mask, i + 1);
        if bit_set(last, i as u8) != bit_set(mask, i as u8) {
            seq![
                ((i + 1) as u32, if bit_set(mask, i as u8) {
                    ButtonState::Pressed
                } else {
                    ButtonState::Released
                }),
            ] + rest
        } else {
            rest
        }
    }
}

/// The button presses and releases that take mask `last` to mask `mask`,
/// by increasing button number.
pub fn pointer_buttons(last: u8, mask: u8) -> (r: Vec<(u32, ButtonState)>)
    ensures
        r@ == transitions_from(last, mask, 0),
{
    let mut r: Vec<(u32, ButtonState)> = Vec::new();
    let mut bit: u8 = 0;
    while bit < 8
        invariant
            bit <= 8,
            r@ + transitions_from(last, mask, bit as int) == transitions_from(last, mask, 0),
        decreases 8 - bit,
    {
        let was = (last >> bit) & 1;
        let is = (mask >> bit) & 1;
        assert(was == 0 || was == 1) by (bit_vector)
            requires
                was == (last >> bit) & 1u8,
        ;
        assert(is == 0 || is == 1) by (bit_vector)
            requires
                is == (mask >> bit) & 1u8,
        ;
        if was != is {
            let st = if is != 0 { ButtonState::Pressed } else { ButtonState::Released };
            let ghost before = r@;
            r.push((bit as u32 + 1, st));
            assert(r@ + transitions_from(last, mask, bit + 1) =~= before + transitions_from(last, mask, bit as int));
        }
        bit += 1;
    }
    r
}

/// The state of mouse button `b` (1 to 8) that mask `m` implies.
pub open spec fn button_in(m: u8, b: u32) -> ButtonState {
    if bit_set(m, (b - 1) as u8) {
        ButtonState::Pressed
    } else {
        ButtonState::Released
    }
}

/// Buttons after applying transitions to a state map, in order.
pub open spec fn apply_buttons(s: Map<u32, ButtonState>, t: Seq<(u32, ButtonState)>) -> Map<u32, ButtonState>
    decreases t.len(),
{
    if t.len() == 0 {
        s
    } else {
        apply_buttons(s.insert(t[0].0, t[0].1), t.drop_first())
    }
}

#[verifier::spinoff_prover]
#[verifier::rlimit(50)]
proof fn lemma_apply_transitions(s: Map<u32, ButtonState>, last: u8, mask: u8, i: int)
    requires
        0 <= i <= 8,
        forall|b: u32| 1 <= b <= 8 && b > i ==> s.contains_key(b) && s[b] == #[trigger] button_in(last, b),
    ensures
        forall|b: u32|
            1 <= b <= 8 && b > i ==> #[trigger] apply_buttons(s, transitions_from(last, mask, i)).contains_key(
                b,
            ) && apply_buttons(s, transitions_from(last, mask, i))[b] == button_in(mask, b),
        forall|b: u32|
            !(1 <= b <= 8 && b > i) ==> #[trigger] apply_buttons(s, transitions_from(last, mask, i)).contains_key(b)
                == s.contains_key(b) && (s.contains_key(b) ==> apply_buttons(s, transitions_from(last, mask, i))[b]
                == s[b]),
    decreases 8 - i,
{
    let t = transitions_from(last, mask, i);
    if i < 8 {
        let rest = transitions_from(last, mask, i + 1);
        let b0 = (i + 1) as u32;
        assert(((b0 - 1) as u8) == i as u8);
        if bit_set(last, i as u8) != bit_set(mask, i as u8) {
            let s2 = s.insert(b0, button_in(mask, b0));
            assert(t[0] == (b0, button_in(mask, b0)));
            assert(t.drop_first() =~= rest);
            assert(apply_buttons(s, t) == apply_buttons(s2, rest));
            lemma_apply_transitions(s2, last, mask, i + 1);
            let r = apply_buttons(s2, rest);
            assert forall|b: u32| 1 <= b <= 8 && b > i implies #[trigger] apply_buttons(s, t).contains_key(b)
                && apply_buttons(s, t)[b] == button_in(mask, b) by {
                if b == b0 {
                    assert(r.contains_key(b) == s2.contains_key(b));
                } else {
                    assert(r.contains_key(b));
                }
            }
            assert forall|b: u32| !(1 <= b <= 8 && b > i) implies #[trigger] apply_buttons(s, t).contains_key(b)
                == s.contains_key(b) && (s.contains_key(b) ==> apply_buttons(s, t)[b] == s[b]) by {
                assert(r.contains_key(b) == s2.contains_key(b));
            }
        } else {
            assert(button_in(last, b0) == button_in(mask, b0));
            assert(t == rest);
            lemma_apply_transitions(s, last, mask, i + 1);
            assert forall|b: u32| 1 <= b <= 8 && b > i implies #[trigger] apply_buttons(s, t).contains_key(b)
                && apply_buttons(s, t)[b] == button_in(mask, b) by {
                if b == b0 {
                    assert(apply_buttons(s, rest).contains_key(b) == s.contains_key(b));
                } else {
                    assert(apply_buttons(s, rest).contains_key(b));
                }
            }
            assert forall|b: u32| !(1 <= b <= 8 && b > i) implies #[trigger] apply_buttons(s, t).contains_key(b)
                == s.contains_key(b) && (s.contains_key(b) ==> apply_buttons(s, t)[b] == s[b]) by {
                assert(apply_buttons(s, rest).contains_key(b) == s.contains_key(b));
            }
        }
    } else {
        assert(t.len() == 0);
        assert(apply_buttons(s, t) == s);
    }
}

/// Applied in order to the button states that the previous mask implies,
/// the reported transitions give exactly the states the new mask implies.
#[verifier::spinoff_prover]
pub proof fn lemma_pointer_transitions(s: Map<u32, ButtonState>, last: u8, mask: u8)
    requires
        forall|b: u32| 1 <= b <= 8 ==> s.contains_key(b) && s[b] == #[trigger] button_in(last, b),
    ensures
        forall|b: u32|
            1 <= b <= 8 ==> #[trigger] apply_buttons(s, transitions_from(last, mask, 0)).contains_key(b)
                && apply_buttons(s, transitions_from(last, mask, 0))[b] == button_in(mask, b),
{
    lemma_apply_transitions(s, last, mask, 0);
}

/// What the server does about one client message.
#[derive(Debug)]
pub enum ServerAction {
    /// Nothing is sent back.
    Nothing,
    /// Drop the pending damage and send this region `(x, y, w, h)` as one
    /// raw rectangle, then the `LastRect` marker.
    FullUpdate(u16, u16, u16, u16),
    /// Send the pending damage, waiting a second at most for some.
    DamageUpdate,
    /// Pass this key event to the compositor.
    Key(InputEventType),
    /// Pass a pointer motion to `(x, y)` to the compositor, then these
    /// button presses and releases, in order.
    Pointer { x: u16, y: u16, buttons: Vec<(u32, ButtonState)> },
}

/// The server's reaction to a message, and the pointer button mask it
/// remembers afterwards.
pub struct Step {
    pub action: ServerAction,
    pub pointer_mask: u8,
}

/// Decide what to do about `msg`, on an `fw` x `fh` framebuffer, with
/// `last_mask` the button mask of the previous pointer event.
pub fn client_step(last_mask: u8, msg: ClientMessage, fw: u16, fh: u16) -> (s: Step)
    ensures
        match msg {
            ClientMessage::FramebufferUpdateRequest { incremental, x, y, w, h } => {
                &&& incremental ==> s.action is DamageUpdate
                &&& !incremental ==> {
                    let r = full_region(x, y, w, h, fw, fh);
                    s.action matches ServerAction::FullUpdate(a, b, c, d) && (a, b, c, d) == r
                }
                &&& s.pointer_mask == last_mask
            },
            ClientMessage::KeyEvent { down, key } => {
                &&& s.action matches ServerAction::Key(e) && e == (InputEventType::KeyPress {
                    key,
                    state: if down {
                        KeyState::Pressed
                    } else {
                        KeyState::Released
                    },
                    modifiers: no_modifiers(),
                })
                &&& s.pointer_mask == last_mask
            },
            ClientMessage::PointerEvent { mask, x, y } => {
                &&& s.action matches ServerAction::Pointer { x: px, y: py, buttons } && px == x && py == y
                    && buttons@ == transitions_from(last_mask, mask, 0)
                &&& s.pointer_mask == mask
            },
            _ => s.action is Nothing && s.pointer_mask == last_mask,
        },
{
    match msg {
        ClientMessage::FramebufferUpdateRequest { incremental, x, y, w, h } => {
            if incremental {
                Step { action: ServerAction::DamageUpdate, pointer_mask: last_mask }
            } else {
                let (a, b, c, d) = full_update_region(x, y, w, h, fw, fh);
                Step { action: ServerAction::FullUpdate(a, b, c, d), pointer_mask: last_mask }
            }
        },
        ClientMessage::KeyEvent { down, key } => {
            Step { action: ServerAction::Key(key_event(down, key)), pointer_mask: last_mask }
        },
        ClientMessage::PointerEvent { mask, x, y } => {
            let buttons = pointer_buttons(last_mask, mask);
            Step { action: ServerAction::Pointer { x, y, buttons }, pointer_mask: mask }
        },
        _ => Step { action: ServerAction::Nothing, pointer_mask: last_mask },
    }
}

/// The key event an RFB `KeyEvent` reports: no modifiers.
pub fn key_event(down: bool, key: u32) -> (e: InputEventType)
    ensures
        e == (InputEventType::KeyPress {
            key,
            state: if down {
                KeyState::Pressed
            } else {
                KeyState::Released
            },
            modifiers: no_modifiers(),
        }),
{
    InputEventType::KeyPress {
        key,
        state: if down { KeyState::Pressed } else { KeyState::Released },
        modifiers: ModifiersState::default(),
    }
}

} // verus!
