//! A tiny SSD1306 (128×64, I2C) driver and monochrome framebuffer.
//!
//! The framebuffer is 8 pages of 128 bytes; bit `y & 7` of byte
//! `[(y / 8) * 128 + x]` is pixel `(x, y)`. Flushing addresses the full
//! window, then sends the buffer page by page.

use vstd::prelude::*;

verus! {

/// Panel width in pixels.
pub const W: usize = 128;
/// Panel height in pixels.
pub const H: usize = 64;
/// Number of 8-row pages.
pub const PAGES: usize = 8;
/// Framebuffer length in bytes.
pub const FB_LEN: usize = 1024;

/// SSD1306 default 7-bit I2C address (SA0 low).
pub const ADDR: u8 = 0x3C;
/// Control byte that prefixes a command stream.
pub const CMD: u8 = 0x00;
/// Control byte that prefixes a data stream.
pub const DATA: u8 = 0x40;

/// The panel init sequence: display off, clock divider, 64-row multiplex,
/// offset 0, start line 0, charge pump on, horizontal addressing, segment
/// remap, COM scan remapped, COM pins, contrast, pre-charge, VCOMH, resume to
/// RAM, normal polarity, display on.
pub const INIT: [u8; 26] = [
    0xAE, 0xD5, 0x80, 0xA8, 0x3F, 0xD3, 0x00, 0x40, 0x8D, 0x14, 0x20, 0x00, 0xA1, 0xC8, 0xDA,
    0x12, 0x81, 0x7F, 0xD9, 0xF1, 0xDB, 0x40, 0xA4, 0xA6, 0xAF, 0,
];

/// Number of meaningful bytes in [`INIT`].
pub const INIT_LEN: usize = 25;

/// A bus's record of transfers: the 7-bit address, the bytes, and what the
/// bus answered, in order.
pub type I2cLog<E> = Seq<(u8, Seq<u8>, Result<(), E>)>;

/// Minimal blocking I2C write the driver needs, implemented by the binary
/// that owns the bus.
pub trait I2cWrite {
    type Error;

    /// Every transfer handed to this bus so far, in order: the 7-bit
    /// address, the bytes, and what the bus answered.
    spec fn writes(&self) -> I2cLog<Self::Error>;

    /// Write `bytes` to the 7-bit `addr`. The transfer is recorded with the
    /// answer returned.
    fn write(&mut self, addr: u8, bytes: &[u8]) -> (r: Result<(), Self::Error>)
        ensures
            final(self).writes() == old(self).writes().push((addr, bytes@, r)),
    ;
}

/// Transfers `ts`, each answered with success.
pub open spec fn accepted<E>(ts: Seq<(u8, Seq<u8>)>) -> Seq<(u8, Seq<u8>, Result<(), E>)> {
    Seq::new(ts.len(), |i: int| (ts[i].0, ts[i].1, Ok::<(), E>(())))
}

/// Transfers `ts` up to and including `ts[k]`: all before `k` answered with
/// success, `ts[k]` refused with `e`.
pub open spec fn failed_at<E>(ts: Seq<(u8, Seq<u8>)>, k: int, e: E) -> Seq<(u8, Seq<u8>, Result<(), E>)> {
    accepted::<E>(ts.take(k)).push((ts[k].0, ts[k].1, Err::<(), E>(e)))
}

/// The command transfer of the panel init sequence.
pub open spec fn init_frame() -> Seq<u8> {
    command_frame(INIT@.take(INIT_LEN as int))
}

/// The command transfer for `cmds`: the command control byte, then at most
/// 63 command bytes.
pub open spec fn command_frame(cmds: Seq<u8>) -> Seq<u8> {
    seq![CMD] + cmds.take(if cmds.len() < 63 { cmds.len() as int } else { 63 })
}

/// The transfers of one flush of framebuffer bytes `fb` to `addr`: the
/// column window `0..=127`, the page window `0..=7`, then each page of 128
/// bytes behind the data control byte.
pub open spec fn flush_transfers(addr: u8, fb: Seq<u8>) -> Seq<(u8, Seq<u8>)> {
    seq![(addr, seq![CMD, 0x21u8, 0u8, 127u8]), (addr, seq![CMD, 0x22u8, 0u8, 7u8])] + Seq::new(
        8,
        |p: int| (addr, seq![DATA] + fb.subrange(p * 128, p * 128 + 128)),
    )
}

/// `(x, y)` is on the panel.
pub open spec fn in_panel(x: int, y: int) -> bool {
    0 <= x < W && 0 <= y < H
}

/// Byte index of pixel `(x, y)`.
pub open spec fn byte_index(x: int, y: int) -> int {
    (y / 8) * 128 + x
}

/// Bit `k` of byte `b` is set.
pub open spec fn bit(b: u8, k: u8) -> bool {
    (b >> k) & 1 == 1
}

/// Pixel `(x, y)` of a framebuffer with bytes `s`.
pub open spec fn pixel_of(s: Seq<u8>, x: int, y: int) -> bool {
    bit(s[byte_index(x, y)], (y % 8) as u8)
}

/// `(dx, dy)` lies in the filled disc of radius `r` (its bounding box and
/// `dx² + dy² <= r²`).
pub open spec fn in_disc(dx: int, dy: int, r: int) -> bool {
    -r <= dx <= r && -r <= dy <= r && dx * dx + dy * dy <= r * r
}

/// `(x, y)` lies in the bar over columns `x0..x1` (`x1` left out) and rows
/// `y0..=y1`.
pub open spec fn in_box(x: int, y: int, x0: int, y0: int, x1: int, y1: int) -> bool {
    x0 <= x < x1 && y0 <= y <= y1
}

/// `(x, y)` lies on the one-pixel border of the rectangle `x0..=x1 × y0..=y1`.
pub open spec fn on_border(x: int, y: int, x0: int, y0: int, x1: int, y1: int) -> bool {
    ||| (x0 <= x <= x1 && (y == y0 || y == y1))
    ||| (y0 <= y <= y1 && (x == x0 || x == x1))
}

/// A 128×64 monochrome framebuffer.
pub struct FrameBuf {
    buf: Vec<u8>,
}

impl FrameBuf {
    /// The buffer holds exactly one byte per 8-pixel column segment.
    pub closed spec fn wf(&self) -> bool {
        self.buf@.len() == FB_LEN
    }

    /// The framebuffer bytes, page-major.
    pub closed spec fn bytes(&self) -> Seq<u8> {
        self.buf@
    }

    /// Pixel `(x, y)` is lit.
    pub open spec fn pixel(&self, x: int, y: int) -> bool {
        pixel_of(self.bytes(), x, y)
    }

    /// Every pixel is dark.
    pub open spec fn is_blank(&self) -> bool {
        self.bytes() == Seq::new(FB_LEN as nat, |i: int| 0u8)
    }

    /// A blank framebuffer.
    pub fn new() -> (r: FrameBuf)
        ensures
            r.wf(),
            r.is_blank(),
    {
        let mut buf: Vec<u8> = Vec::new();
        let mut i: usize = 0;
        while i < FB_LEN
            invariant
                i <= FB_LEN,
                buf@ == Seq::new(i as nat, |j: int| 0u8),
            decreases FB_LEN - i,
        {
            buf.push(0);
            i += 1;
            assert(buf@ =~= Seq::new(i as nat, |j: int| 0u8));
        }
        FrameBuf { buf }
    }

    /// Turn every pixel off.
    pub fn clear(&mut self)
        requires
            old(self).wf(),
        ensures
            final(self).wf(),
            final(self).is_blank(),
    {
        let mut i: usize = 0;
        while i < FB_LEN
            invariant
                i <= FB_LEN,
                self.buf@.len() == FB_LEN,
                forall|j: int| 0 <= j < i ==> self.buf@[j] == 0,
            decreases FB_LEN - i,
        {
            self.buf.set(i, 0);
            i += 1;
        }
        assert(self.buf@ =~= Seq::new(FB_LEN as nat, |j: int| 0u8));
    }

    /// The framebuffer bytes (8 pages of 128 columns), as sent to the panel.
    pub fn as_bytes(&self) -> (r: &[u8])
        requires
            self.wf(),
        ensures
            r@ == self.bytes(),
            r@.len() == FB_LEN,
    {
        self.buf.as_slice()
    }

    /// Set or clear one pixel; out-of-range coordinates are a no-op.
    pub fn set(&mut self, x: i32, y: i32, on: bool)
        requires
            old(self).wf(),
        ensures
            final(self).wf(),
            forall|px: int, py: int|
                in_panel(px, py) ==> #[trigger] final(self).pixel(px, py) == if px == x && py == y {
                    on
                } else {
                    old(self).pixel(px, py)
                },
    {
        if x < 0 || y < 0 || x as usize >= W || y as usize >= H {
            return;
        }
        let xu = x as usize;
        let yu = y as usize;
        let idx = (yu / 8) * W + xu;
        let k = (yu & 7) as u8;
        assert(k == yu % 8) by (bit_vector)
            requires k == (yu & 7) as u8, yu < 64;
        let bitmask = 1u8 << k;
        let b = self.buf[idx];
        let nb = if on { b | bitmask } else { b & !bitmask };
        proof {
            lemma_bit_update(b, k, on, nb);
        }
        self.buf.set(idx, nb);
        proof {
            let s0 = old(self).buf@;
            let s1 = self.buf@;
            assert forall|px: int, py: int| in_panel(px, py) implies #[trigger] self.pixel(px, py)
                == if px == x && py == y {
                on
            } else {
                old(self).pixel(px, py)
            } by {
                let j = byte_index(px, py);
                if j == idx {
                    assert(px == x as int && py / 8 == y as int / 8);
                }
            }
        }
    }

    /// Filled circle centred at `(cx, cy)`, radius `r`: every on-panel pixel
    /// `(cx + dx, cy + dy)` with `dx² + dy² <= r²` is set to `on`; others keep
    /// their value.
    pub fn fill_circle(&mut self, cx: i32, cy: i32, r: i32, on: bool)
        requires
            old(self).wf(),
            -46340 <= r <= 32767,
            r >= 0 ==> i32::MIN <= cx - r && cx + r <= i32::MAX,
            r >= 0 ==> i32::MIN <= cy - r && cy + r <= i32::MAX,
        ensures
            final(self).wf(),
            forall|px: int, py: int|
                in_panel(px, py) ==> #[trigger] final(self).pixel(px, py) == if in_disc(
                    px - cx,
                    py - cy,
                    r as int,
                ) {
                    on
                } else {
                    old(self).pixel(px, py)
                },
    {
        assert(0 <= r * r <= 2147395600) by (nonlinear_arith)
            requires -46340 <= r <= 32767;
        let r2 = r * r;
        let mut dy: i32 = -r;
        while dy <= r
            invariant
                self.wf(),
                -46340 <= r <= 32767,
                r2 == r * r,
                r >= 0 ==> i32::MIN <= cx - r && cx + r <= i32::MAX,
                r >= 0 ==> i32::MIN <= cy - r && cy + r <= i32::MAX,
                -r <= dy,
                r >= 0 ==> dy <= r + 1,
                r < 0 ==> dy == -r,
                forall|px: int, py: int|
                    in_panel(px, py) ==> #[trigger] self.pixel(px, py) == if in_disc(
                        px - cx,
                        py - cy,
                        r as int,
                    ) && py - cy < dy {
                        on
                    } else {
                        old(self).pixel(px, py)
                    },
            decreases r + 1 - dy,
        {
            let ghost row_start = *self;
            let mut dx: i32 = -r;
            while dx <= r
                invariant
                    self.wf(),
                    0 <= r <= 32767,
                    r2 == r * r,
                    i32::MIN <= cx - r && cx + r <= i32::MAX,
                    i32::MIN <= cy - r && cy + r <= i32::MAX,
                    -r <= dy <= r,
                    -r <= dx,
                    dx <= r + 1,
                    forall|px: int, py: int|
                        in_panel(px, py) ==> #[trigger] self.pixel(px, py) == if py - cy == dy
                            && -r <= px - cx < dx && in_disc(px - cx, py - cy, r as int) {
                            on
                        } else {
                            row_start.pixel(px, py)
                        },
                decreases r + 1 - dx,
            {
                assert(0 <= dx * dx <= 1073676289) by (nonlinear_arith)
                    requires -32767 <= dx <= 32767;
                assert(0 <= dy * dy <= 1073676289) by (nonlinear_arith)
                    requires -32767 <= dy <= 32767;
                if dx * dx + dy * dy <= r2 {
                    self.set(cx + dx, cy + dy, on);
                }
                dx += 1;
            }
            assert(dy <= r);
            dy += 1;
        }
    }

    /// One-pixel border rectangle with corners `(x0, y0)` and `(x1, y1)`.
    pub fn rect(&mut self, x0: i32, y0: i32, x1: i32, y1: i32, on: bool)
        requires
            old(self).wf(),
        ensures
            final(self).wf(),
            forall|px: int, py: int|
                in_panel(px, py) ==> #[trigger] final(self).pixel(px, py) == if on_border(
                    px,
                    py,
                    x0 as int,
                    y0 as int,
                    x1 as int,
                    y1 as int,
                ) {
                    on
                } else {
                    old(self).pixel(px, py)
                },
    {
        let mut x: i64 = x0 as i64;
        while x <= x1 as i64
            invariant
                self.wf(),
                x0 <= x,
                x <= x1 as i64 + 1 || x == x0,
                forall|px: int, py: int|
                    in_panel(px, py) ==> #[trigger] self.pixel(px, py) == if x0 <= px < x && (py
                        == y0 || py == y1) {
                        on
                    } else {
                        old(self).pixel(px, py)
                    },
            decreases x1 as i64 + 1 - x,
        {
            self.set(x as i32, y0, on);
            self.set(x as i32, y1, on);
            x += 1;
        }
        let ghost mid = *self;
        let mut y: i64 = y0 as i64;
        while y <= y1 as i64
            invariant
                self.wf(),
                y0 <= y,
                y <= y1 as i64 + 1 || y == y0,
                forall|px: int, py: int|
                    in_panel(px, py) ==> #[trigger] self.pixel(px, py) == if y0 <= py < y && (px
                        == x0 || px == x1) {
                        on
                    } else {
                        mid.pixel(px, py)
                    },
            decreases y1 as i64 + 1 - y,
        {
            self.set(x0, y as i32, on);
            self.set(x1, y as i32, on);
            y += 1;
        }
    }

    /// Filled horizontal bar over columns `x0..x1` (`x1` left out) at rows
    /// `y0..=y1`, as for telemetry gauges.
    pub fn fill_rect(&mut self, x0: i32, y0: i32, x1: i32, y1: i32, on: bool)
        requires
            old(self).wf(),
        ensures
            final(self).wf(),
            forall|px: int, py: int|
                in_panel(px, py) ==> #[trigger] final(self).pixel(px, py) == if in_box(
                    px,
                    py,
                    x0 as int,
                    y0 as int,
                    x1 as int,
                    y1 as int,
                ) {
                    on
                } else {
                    old(self).pixel(px, py)
                },
    {
        let mut y: i64 = y0 as i64;
        while y <= y1 as i64
            invariant
                self.wf(),
                y0 <= y,
                y <= y1 as i64 + 1 || y == y0,
                forall|px: int, py: int|
                    in_panel(px, py) ==> #[trigger] self.pixel(px, py) == if y0 <= py < y && x0
                        <= px < x1 {
                        on
                    } else {
                        old(self).pixel(px, py)
                    },
            decreases y1 as i64 + 1 - y,
        {
            let ghost row_start = *self;
            let mut x: i64 = x0 as i64;
            while x < x1 as i64
                invariant
                    self.wf(),
                    y0 <= y <= y1,
                    x0 <= x,
                    x <= x1 as i64 || x == x0,
                    forall|px: int, py: int|
                        in_panel(px, py) ==> #[trigger] self.pixel(px, py) == if py == y && x0
                            <= px < x {
                            on
                        } else {
                            row_start.pixel(px, py)
                        },
                decreases x1 as i64 - x,
            {
                self.set(x as i32, y as i32, on);
                x += 1;
            }
            y += 1;
        }
    }
}

/// SSD1306 over a blocking I2C bus.
pub struct Ssd1306<I> {
    i2c: I,
    addr: u8,
}

impl<I: I2cWrite> Ssd1306<I> {
    /// The bus the driver writes to.
    pub closed spec fn bus(&self) -> I {
        self.i2c
    }

    /// The panel's I2C address.
    pub closed spec fn spec_addr(&self) -> u8 {
        self.addr
    }

    /// Wrap an I2C bus and run the panel init sequence: exactly one write, of
    /// the init command transfer to [`ADDR`]. The driver is returned when the
    /// bus accepts it, the bus's error when it refuses it.
    pub fn new(i2c: I) -> (r: Result<Self, I::Error>)
        ensures
            r matches Ok(d) ==> d.spec_addr() == ADDR && d.bus().writes() == i2c.writes().push(
                (ADDR, init_frame(), Ok(())),
            ),
            r matches Err(e) ==> exists|b: I|
                #[trigger] b.writes() == i2c.writes().push((ADDR, init_frame(), Err(e))),
    {
        let mut d = Ssd1306 { i2c, addr: ADDR };
        let ghost w0 = d.i2c.writes();
        let init = INIT.as_slice();
        let cmds = &init[0..INIT_LEN];
        let r = d.cmds(cmds);
        match r {
            Ok(()) => {
                proof {
                    lemma_ok_is_unit(r);
                }
                Ok(d)
            },
            Err(e) => {
                proof {
                    let b = d.i2c;
                    assert(b.writes() == w0.push((ADDR, init_frame(), Err::<(), I::Error>(e))));
                }
                Err(e)
            },
        }
    }

    /// Send a command stream (control byte `0x00`, then each command byte).
    fn cmds(&mut self, cmds: &[u8]) -> (r: Result<(), I::Error>)
        ensures
            final(self).spec_addr() == old(self).spec_addr(),
            final(self).bus().writes() == old(self).bus().writes().push(
                (old(self).addr, command_frame(cmds@), r),
            ),
    {
        let n = if cmds.len() < 63 { cmds.len() } else { 63 };
        let mut frame: Vec<u8> = Vec::new();
        frame.push(CMD);
        let mut i: usize = 0;
        while i < n
            invariant
                n <= cmds@.len(),
                n <= 63,
                i <= n,
                frame@ == seq![CMD] + cmds@.take(i as int),
            decreases n - i,
        {
            frame.push(cmds[i]);
            i += 1;
            assert(frame@ =~= seq![CMD] + cmds@.take(i as int));
        }
        self.send(frame.as_slice())
    }

    /// Hand one transfer to the bus.
    fn send(&mut self, bytes: &[u8]) -> (r: Result<(), I::Error>)
        ensures
            final(self).addr == old(self).addr,
            final(self).bus().writes() == old(self).bus().writes().push((old(self).addr, bytes@, r)),
    {
        self.i2c.write(self.addr, bytes)
    }

    /// Push the whole framebuffer to the panel: the ten writes of
    /// [`flush_transfers`], in order, stopping at the first the bus refuses
    /// and returning its error.
    pub fn flush(&mut self, fb: &FrameBuf) -> (r: Result<(), I::Error>)
        requires
            fb.wf(),
        ensures
            final(self).spec_addr() == old(self).spec_addr(),
            r is Ok ==> final(self).bus().writes() == old(self).bus().writes() + accepted::<I::Error>(
                flush_transfers(old(self).spec_addr(), fb.bytes()),
            ),
            r matches Err(e) ==> exists|k: int|
                0 <= k < 10 && final(self).bus().writes() == old(self).bus().writes()
                    + #[trigger] failed_at(flush_transfers(old(self).spec_addr(), fb.bytes()), k, e),
    {
        let ghost t = flush_transfers(self.addr, fb.bytes());
        let ghost s0 = self.bus().writes();
        let r1 = self.send(&[CMD, 0x21, 0, (W as u8) - 1]);
        match r1 {
            Ok(()) => {
                proof {
                    lemma_ok_is_unit(r1);
                }
                assert(self.bus().writes() =~= s0 + accepted::<I::Error>(t.take(1)));
            },
            Err(e) => {
                assert(self.bus().writes() =~= s0 + failed_at(t, 0, e));
                assert(self.bus().writes() == old(self).bus().writes() + failed_at(
                    flush_transfers(old(self).spec_addr(), fb.bytes()),
                    0,
                    e,
                ));
                return Err(e);
            },
        }
        let r2 = self.send(&[CMD, 0x22, 0, (PAGES as u8) - 1]);
        match r2 {
            Ok(()) => {
                proof {
                    lemma_ok_is_unit(r2);
                }
                assert(self.bus().writes() =~= s0 + accepted::<I::Error>(t.take(2)));
            },
            Err(e) => {
                assert(self.bus().writes() =~= s0 + failed_at(t, 1, e));
                return Err(e);
            },
        }
        let bytes = fb.as_bytes();
        let mut page: usize = 0;
        while page < PAGES
            invariant
                page <= PAGES,
                bytes@ == fb.bytes(),
                bytes@.len() == FB_LEN,
                t == flush_transfers(self.addr, fb.bytes()),
                self.addr == old(self).addr,
                self.bus().writes() == s0 + accepted::<I::Error>(t.take(2 + page)),
                s0 == old(self).bus().writes(),
            decreases PAGES - page,
        {
            let mut chunk: Vec<u8> = Vec::new();
            chunk.push(DATA);
            let base = page * W;
            let mut i: usize = 0;
            while i < W
                invariant
                    i <= W,
                    page < PAGES,
                    base == page * 128,
                    bytes@.len() == FB_LEN,
                    chunk@ == seq![DATA] + bytes@.subrange(base as int, base + i),
                decreases W - i,
            {
                chunk.push(bytes[base + i]);
                i += 1;
                assert(chunk@ =~= seq![DATA] + bytes@.subrange(base as int, base + i));
            }
            let rp = self.send(chunk.as_slice());
            assert(t[2 + page as int] == (self.addr, chunk@));
            match rp {
                Ok(()) => {
                    proof {
                        lemma_ok_is_unit(rp);
                    }
                    assert(self.bus().writes() =~= s0 + accepted::<I::Error>(t.take(2 + page + 1)));
                },
                Err(e) => {
                    assert(self.bus().writes() =~= s0 + failed_at(t, 2 + page, e));
                    assert(self.bus().writes() == old(self).bus().writes() + failed_at(
                        flush_transfers(old(self).spec_addr(), fb.bytes()),
                        2 + page,
                        e,
                    ));
                    return Err(e);
                },
            }
            page += 1;
        }
        assert(t.take(10) =~= t);
        Ok(())
    }
}

/// A successful answer carries the unit value.
proof fn lemma_ok_is_unit<E>(r: Result<(), E>)
    requires
        r is Ok,
    ensures
        r == Ok::<(), E>(()),
{
    assert(r->Ok_0 == ());
}

/// Setting or clearing bit `k` changes that bit and no other.
proof fn lemma_bit_update(b: u8, k: u8, on: bool, nb: u8)
    requires
        k < 8,
        nb == (if on { b | (1u8 << k) } else { b & !(1u8 << k) }),
    ensures
        bit(nb, k) == on,
        forall|j: u8| j < 8 && j != k ==> #[trigger] bit(nb, j) == bit(b, j),
{
    if on {
        assert(bit(nb, k)) by (bit_vector)
            requires k < 8, nb == b | (1u8 << k);
        assert forall|j: u8| j < 8 && j != k implies #[trigger] bit(nb, j) == bit(b, j) by {
            assert(((nb >> j) & 1 == 1) == ((b >> j) & 1 == 1)) by (bit_vector)
                requires k < 8, j < 8, j != k, nb == b | (1u8 << k);
        }
    } else {
        assert(!bit(nb, k)) by (bit_vector)
            requires k < 8, nb == b & !(1u8 << k);
        assert forall|j: u8| j < 8 && j != k implies #[trigger] bit(nb, j) == bit(b, j) by {
            assert(((nb >> j) & 1 == 1) == ((b >> j) & 1 == 1)) by (bit_vector)
                requires k < 8, j < 8, j != k, nb == b & !(1u8 << k);
        }
    }
}


/// The framebuffer's layout: pixel `(x, y)` of the panel is bit `y % 8` of
/// byte `(y / 8) * 128 + x`, so byte `p * 128 + x` holds column `x` of the
/// eight rows `8p .. 8p + 8`, lowest row in the lowest bit — the page layout
/// the panel's horizontal addressing mode expects, and what a flush sends as
/// page `p`.
pub proof fn lemma_pixel_layout(fb: FrameBuf, x: int, y: int)
    requires
        fb.wf(),
        0 <= x < 128,
        0 <= y < 64,
    ensures
        fb.pixel(x, y) == ((fb.bytes()[(y / 8) * 128 + x] >> ((y % 8) as u8)) & 1 == 1),
        0 <= (y / 8) * 128 + x < 1024,
        flush_transfers(ADDR, fb.bytes())[2 + y / 8].1[1 + x] == fb.bytes()[(y / 8) * 128 + x],
{
    let p = y / 8;
    let t = flush_transfers(ADDR, fb.bytes());
    assert(t[2 + p] == (ADDR, seq![DATA] + fb.bytes().subrange(p * 128, p * 128 + 128)));
}


/// A flush addresses the whole panel before streaming it: the first write
/// sets the column window to `0..=127` (`0x21 0 127`), the second the page
/// window to `0..=7` (`0x22 0 7`), both as commands; then come exactly eight
/// data writes of 129 bytes, each the data control byte `0x40` and one page.
/// The init transfer is the command control byte `0x00` followed by the 25
/// init commands, display off (`0xAE`) first and display on (`0xAF`) last.
pub proof fn lemma_flush_and_init_transfers(addr: u8, fb: Seq<u8>)
    requires
        fb.len() == 1024,
    ensures
        flush_transfers(addr, fb).len() == 10,
        flush_transfers(addr, fb)[0] == (addr, seq![0x00u8, 0x21u8, 0u8, 127u8]),
        flush_transfers(addr, fb)[1] == (addr, seq![0x00u8, 0x22u8, 0u8, 7u8]),
        forall|p: int|
            0 <= p < 8 ==> (#[trigger] flush_transfers(addr, fb)[2 + p]).0 == addr && flush_transfers(
                addr,
                fb,
            )[2 + p].1.len() == 129 && flush_transfers(addr, fb)[2 + p].1[0] == 0x40,
        init_frame().len() == 26,
        init_frame()[0] == 0x00,
        init_frame()[1] == 0xAE,
        init_frame()[25] == 0xAF,
        forall|k: int| 0 <= k < 25 ==> #[trigger] init_frame()[1 + k] == INIT[k],
{
    assert forall|p: int| 0 <= p < 8 implies (#[trigger] flush_transfers(addr, fb)[2 + p]).0 == addr
        && flush_transfers(addr, fb)[2 + p].1.len() == 129 && flush_transfers(addr, fb)[2 + p].1[0]
        == 0x40 by {
        assert(flush_transfers(addr, fb)[2 + p] == (addr, seq![DATA] + fb.subrange(p * 128, p * 128 + 128)));
    }
}

} // verus!
