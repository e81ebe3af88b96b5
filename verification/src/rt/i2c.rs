//! Interrupt-driven I2C master (I2C1): the transfer state and its event
//! machine.
//!
//! The peripheral is a byte-at-a-time event cell. A transfer is staged into
//! [`State`] (single-flight, at most [`CAP`] bytes), the event interrupt feeds
//! the status flags to [`State::on_event`], which advances the transfer and
//! names the register action to perform, and the error interrupt classifies
//! failures with [`State::on_error`]. The waiting task collects the result
//! with [`State::take_result`].

use vstd::prelude::*;

verus! {

/// Max bytes per transfer (staged through the internal buffer).
pub const CAP: usize = 256;

/// I2C transaction errors.
#[derive(Clone, Copy, Debug, PartialEq, Eq, Structural)]
pub enum Error {
    /// Address or data byte was not acknowledged.
    Nack,
    /// Lost arbitration (multi-master).
    Arbitration,
    /// RX overrun / TX underrun.
    Overrun,
    /// Bus error (misplaced START/STOP).
    Bus,
    /// Transfer larger than [`CAP`] (or an empty read).
    TooLong,
    /// A transaction is already in flight (single-flight driver).
    Busy,
}

/// The transfer in flight.
#[derive(Clone, Copy, Debug, PartialEq, Eq, Structural)]
pub enum Op {
    Idle,
    Write,
    Read,
}

/// Status flags of the event interrupt (STS1).
#[derive(Clone, Copy, Debug)]
pub struct EvFlags {
    /// START generated.
    pub startbf: bool,
    /// Address sent / matched.
    pub addrf: bool,
    /// Data register empty (transmit).
    pub txdate: bool,
    /// Byte transfer finished.
    pub bsf: bool,
    /// Data register not empty (receive).
    pub rxdatne: bool,
}

/// Status flags of the error interrupt (STS1).
#[derive(Clone, Copy, Debug)]
pub struct ErFlags {
    /// Acknowledge failure.
    pub ackfail: bool,
    /// Arbitration lost.
    pub arlost: bool,
    /// Overrun / underrun.
    pub overrun: bool,
}

/// The register work an event calls for.
#[derive(Clone, Copy, Debug, PartialEq, Eq, Structural)]
pub enum EvAction {
    /// START is out: write this address byte to the data register.
    SendAddress(u8),
    /// Read STS2 to clear the address flag.
    ClearAddr,
    /// Empty write: read STS2, generate STOP; the transfer is finished.
    ClearAddrStopDone,
    /// Single-byte read: clear ACK, read STS2, generate STOP.
    NackClearAddrStop,
    /// Write this data byte to the data register.
    SendData(u8),
    /// Last byte shifted out: generate STOP; the transfer is finished.
    StopDone,
    /// Data register empty but the shifter busy: mask the buffer interrupt
    /// and wait for byte-transfer-finished.
    AwaitBtf,
    /// A byte was received and one remains: clear ACK and generate STOP.
    NackStop,
    /// The final byte was received; the transfer is finished.
    Done,
    /// A byte was received; more follow.
    Continue,
    /// Nothing to do for these flags.
    Nothing,
    /// Event with no transfer in flight: mask every interrupt.
    MaskAll,
}

/// The transfer state as plain values.
pub struct I2cModel {
    pub op: Op,
    pub addr: u8,
    pub len: nat,
    pub idx: nat,
    pub buf: Seq<u8>,
    pub result: Option<Result<(), Error>>,
}

/// Transfer state shared between the task and the interrupts.
pub struct State {
    op: Op,
    addr: u8,
    len: usize,
    idx: usize,
    buf: Vec<u8>,
    result: Option<Result<(), Error>>,
}

impl View for State {
    type V = I2cModel;

    closed spec fn view(&self) -> I2cModel {
        I2cModel {
            op: self.op,
            addr: self.addr,
            len: self.len as nat,
            idx: self.idx as nat,
            buf: self.buf@,
            result: self.result,
        }
    }
}

/// The state after finishing the transfer with `r`: nothing in flight, the
/// result published.
pub open spec fn finished(m: I2cModel, r: Result<(), Error>) -> I2cModel {
    I2cModel { op: Op::Idle, result: Some(r), ..m }
}

/// What an event with `flags` does to a transfer in state `m`: the next
/// state and the register action. `rx` is the data register, read only when
/// [`State::needs_data`] says so.
pub open spec fn spec_event(m: I2cModel, f: EvFlags, rx: u8) -> (I2cModel, EvAction) {
    match m.op {
        Op::Write => if f.startbf {
            (m, EvAction::SendAddress((m.addr * 2 % 256) as u8))
        } else if f.addrf {
            if m.len == 0 {
                (finished(m, Ok(())), EvAction::ClearAddrStopDone)
            } else {
                (m, EvAction::ClearAddr)
            }
        } else if f.txdate {
            if m.idx < m.len {
                (I2cModel { idx: m.idx + 1, ..m }, EvAction::SendData(m.buf[m.idx as int]))
            } else if f.bsf {
                (finished(m, Ok(())), EvAction::StopDone)
            } else {
                (m, EvAction::AwaitBtf)
            }
        } else {
            (m, EvAction::Nothing)
        },
        Op::Read => if f.startbf {
            (m, EvAction::SendAddress((m.addr * 2 % 256 + 1) as u8))
        } else if f.addrf {
            (m, if m.len == 1 { EvAction::NackClearAddrStop } else { EvAction::ClearAddr })
        } else if f.rxdatne {
            let n = I2cModel { idx: m.idx + 1, buf: m.buf.update(m.idx as int, rx), ..m };
            if m.len - (m.idx + 1) == 1 {
                (n, EvAction::NackStop)
            } else if m.len - (m.idx + 1) == 0 {
                (finished(n, Ok(())), EvAction::Done)
            } else {
                (n, EvAction::Continue)
            }
        } else {
            (m, EvAction::Nothing)
        },
        Op::Idle => (m, EvAction::MaskAll),
    }
}

/// The error an error interrupt with `f` reports: acknowledge failure first,
/// then arbitration loss, then overrun, and any other cause as a bus error.
pub open spec fn spec_error_kind(f: ErFlags) -> Error {
    if f.ackfail {
        Error::Nack
    } else if f.arlost {
        Error::Arbitration
    } else if f.overrun {
        Error::Overrun
    } else {
        Error::Bus
    }
}

impl State {
    /// Buffer of [`CAP`] bytes, a staged length within it, a position within
    /// the length, and a read in flight always has a byte left to receive.
    pub open spec fn wf(&self) -> bool {
        let m = self@;
        &&& m.buf.len() == CAP
        &&& m.len <= CAP
        &&& m.idx <= m.len
        &&& m.op == Op::Read ==> m.idx < m.len
    }

    /// An idle state: nothing in flight, no result.
    pub fn new() -> (r: State)
        ensures
            r.wf(),
            r@.op == Op::Idle,
            r@.addr == 0,
            r@.len == 0,
            r@.idx == 0,
            r@.result is None,
            r@.buf == Seq::new(CAP as nat, |i: int| 0u8),
    {
        let mut buf: Vec<u8> = Vec::new();
        let mut i: usize = 0;
        while i < CAP
            invariant
                i <= CAP,
                buf@ == Seq::new(i as nat, |j: int| 0u8),
            decreases CAP - i,
        {
            buf.push(0);
            i += 1;
            assert(buf@ =~= Seq::new(i as nat, |j: int| 0u8));
        }
        State { op: Op::Idle, addr: 0, len: 0, idx: 0, buf, result: None }
    }

    /// Stage a write of `bytes` to the 7-bit `addr`. Refused with `TooLong`
    /// beyond [`CAP`] bytes and with `Busy` while another transfer is in
    /// flight, leaving the state as it was.
    pub fn begin_write(&mut self, addr: u8, bytes: &[u8]) -> (r: Result<(), Error>)
        requires
            old(self).wf(),
        ensures
            final(self).wf(),
            bytes@.len() > CAP ==> r == Err::<(), Error>(Error::TooLong) && final(self)@ == old(self)@,
            bytes@.len() <= CAP && old(self)@.op != Op::Idle ==> r == Err::<(), Error>(Error::Busy)
                && final(self)@ == old(self)@,
            bytes@.len() <= CAP && old(self)@.op == Op::Idle ==> {
                &&& r is Ok
                &&& final(self)@.op == Op::Write
                &&& final(self)@.addr == addr
                &&& final(self)@.len == bytes@.len()
                &&& final(self)@.idx == 0
                &&& final(self)@.result is None
                &&& final(self)@.buf.take(bytes@.len() as int) == bytes@
            },
    {
        if bytes.len() > CAP {
            return Err(Error::TooLong);
        }
        if self.op != Op::Idle {
            return Err(Error::Busy);
        }
        let n = bytes.len();
        let mut i: usize = 0;
        while i < n
            invariant
                n == bytes@.len(),
                n <= CAP,
                i <= n,
                self.buf@.len() == CAP,
                forall|j: int| 0 <= j < i ==> self.buf@[j] == bytes@[j],
            decreases n - i,
        {
            self.buf.set(i, bytes[i]);
            i += 1;
        }
        self.op = Op::Write;
        self.addr = addr;
        self.len = n;
        self.idx = 0;
        self.result = None;
        assert(self.buf@.take(n as int) =~= bytes@);
        Ok(())
    }

    /// Stage a read of `len` bytes from the 7-bit `addr`. Refused with
    /// `TooLong` for an empty read or beyond [`CAP`] bytes and with `Busy`
    /// while another transfer is in flight, leaving the state as it was.
    pub fn begin_read(&mut self, addr: u8, len: usize) -> (r: Result<(), Error>)
        requires
            old(self).wf(),
        ensures
            final(self).wf(),
            (len == 0 || len > CAP) ==> r == Err::<(), Error>(Error::TooLong) && final(self)@
                == old(self)@,
            0 < len <= CAP && old(self)@.op != Op::Idle ==> r == Err::<(), Error>(Error::Busy)
                && final(self)@ == old(self)@,
            0 < len <= CAP && old(self)@.op == Op::Idle ==> {
                &&& r is Ok
                &&& final(self)@ == (I2cModel {
                    op: Op::Read,
                    addr,
                    len: len as nat,
                    idx: 0,
                    result: None,
                    ..old(self)@
                })
            },
    {
        if len == 0 || len > CAP {
            return Err(Error::TooLong);
        }
        if self.op != Op::Idle {
            return Err(Error::Busy);
        }
        self.op = Op::Read;
        self.addr = addr;
        self.len = len;
        self.idx = 0;
        self.result = None;
        Ok(())
    }

    /// Whether the event with `flags` consumes the data register (a byte
    /// received during a read); only then must the interrupt read it.
    pub fn needs_data(&self, f: EvFlags) -> (r: bool)
        ensures
            r == (self@.op == Op::Read && !f.startbf && !f.addrf && f.rxdatne),
    {
        self.op == Op::Read && !f.startbf && !f.addrf && f.rxdatne
    }

    /// Advance the transfer on an event interrupt with status `f`; `rx` is
    /// the data register content when [`State::needs_data`] holds (ignored
    /// otherwise). Returns the register work to perform.
    pub fn on_event(&mut self, f: EvFlags, rx: u8) -> (r: EvAction)
        requires
            old(self).wf(),
        ensures
            final(self).wf(),
            (final(self)@, r) == spec_event(old(self)@, f, rx),
    {
        match self.op {
            Op::Write => {
                if f.startbf {
                    let a = ((self.addr as u32) << 1) as u8;
                    let ghost ad = self.addr;
                    assert(a == (ad * 2 % 256) as u8) by (bit_vector)
                        requires a == ((ad as u32) << 1) as u8;
                    EvAction::SendAddress(a)
                } else if f.addrf {
                    if self.len == 0 {
                        self.finish(Ok(()));
                        EvAction::ClearAddrStopDone
                    } else {
                        EvAction::ClearAddr
                    }
                } else if f.txdate {
                    if self.idx < self.len {
                        let b = self.buf[self.idx];
                        self.idx += 1;
                        EvAction::SendData(b)
                    } else if f.bsf {
                        self.finish(Ok(()));
                        EvAction::StopDone
                    } else {
                        EvAction::AwaitBtf
                    }
                } else {
                    EvAction::Nothing
                }
            },
            Op::Read => {
                if f.startbf {
                    let a = (((self.addr as u32) << 1) | 1) as u8;
                    let ghost ad = self.addr;
                    assert(a == (ad * 2 % 256 + 1) as u8) by (bit_vector)
                        requires a == (((ad as u32) << 1) | 1) as u8;
                    EvAction::SendAddress(a)
                } else if f.addrf {
                    if self.len == 1 {
                        EvAction::NackClearAddrStop
                    } else {
                        EvAction::ClearAddr
                    }
                } else if f.rxdatne {
                    let i = self.idx;
                    self.buf.set(i, rx);
                    self.idx += 1;
                    let remaining = self.len - self.idx;
                    if remaining == 1 {
                        EvAction::NackStop
                    } else if remaining == 0 {
                        self.finish(Ok(()));
                        EvAction::Done
                    } else {
                        EvAction::Continue
                    }
                } else {
                    EvAction::Nothing
                }
            },
            Op::Idle => EvAction::MaskAll,
        }
    }

    /// Handle an error interrupt with status `f`: classify the failure,
    /// finish the transfer with it, and return it (the interrupt clears that
    /// flag and generates STOP).
    pub fn on_error(&mut self, f: ErFlags) -> (r: Error)
        requires
            old(self).wf(),
        ensures
            final(self).wf(),
            r == spec_error_kind(f),
            final(self)@ == finished(old(self)@, Err(r)),
    {
        let e = if f.ackfail {
            Error::Nack
        } else if f.arlost {
            Error::Arbitration
        } else if f.overrun {
            Error::Overrun
        } else {
            Error::Bus
        };
        self.finish(Err(e));
        e
    }

    /// Nothing in flight any more; publish the transfer result.
    fn finish(&mut self, r: Result<(), Error>)
        ensures
            final(self)@ == finished(old(self)@, r),
    {
        self.op = Op::Idle;
        self.result = Some(r);
    }

    /// The published result of the finished transfer, if any, taken so it is
    /// reported once.
    pub fn take_result(&mut self) -> (r: Option<Result<(), Error>>)
        requires
            old(self).wf(),
        ensures
            final(self).wf(),
            r == old(self)@.result,
            final(self)@ == (I2cModel { result: None, ..old(self)@ }),
    {
        let r = self.result;
        self.result = None;
        r
    }

    /// The bytes received by the last read.
    pub fn received(&self) -> (r: Vec<u8>)
        requires
            self.wf(),
        ensures
            r@ == self@.buf.take(self@.len as int),
    {
        let mut out: Vec<u8> = Vec::new();
        let mut i: usize = 0;
        while i < self.len
            invariant
                self.wf(),
                i <= self.len,
                out@ == self.buf@.take(i as int),
            decreases self.len - i,
        {
            out.push(self.buf[i]);
            i += 1;
            assert(out@ =~= self.buf@.take(i as int));
        }
        out
    }
}

/// Register values of the standard-mode bus clock.
#[derive(Clone, Copy, Debug, PartialEq, Eq, Structural)]
pub struct I2cTiming {
    /// Peripheral clock in MHz (CTRL2.CLKFREQ).
    pub clkfreq: u8,
    /// Maximum rise time: clock in MHz plus one (TMRISE).
    pub tmrise: u8,
    /// Half-period in peripheral clocks, at least 4 (CLKCTRL).
    pub ccr: u16,
}

/// Standard-mode timing for a bus of `freq_hz` on a peripheral clock of
/// `pclk_hz`: high and low times of `ccr` peripheral clocks each.
pub fn i2c_timing(pclk_hz: u32, freq_hz: u32) -> (r: I2cTiming)
    requires
        0 < freq_hz,
        freq_hz * 2 <= u32::MAX,
    ensures
        r.clkfreq == (pclk_hz / 1_000_000) as u8,
        r.tmrise == (pclk_hz / 1_000_000 + 1) as u8,
        r.ccr == (if pclk_hz as int / (freq_hz * 2) >= 4 { pclk_hz as int / (freq_hz * 2) } else { 4 }) as u16,
{
    let clc_mhz = pclk_hz / 1_000_000;
    let half = pclk_hz / (freq_hz * 2);
    let ccr = if half >= 4 { half } else { 4 };
    I2cTiming {
        clkfreq: #[verifier::truncate] (clc_mhz as u8),
        tmrise: #[verifier::truncate] ((clc_mhz + 1) as u8),
        ccr: #[verifier::truncate] (ccr as u16),
    }
}

/// A staged write puts exactly the staged bytes on the bus, in order: each
/// data byte sent is the next staged byte, and the transfer finishes
/// successfully only once every staged byte has been sent.
pub proof fn lemma_write_sends_staged_bytes(m: I2cModel, f: EvFlags, rx: u8)
    requires
        m.op == Op::Write,
        m.idx <= m.len <= CAP,
        m.buf.len() == CAP,
    ensures
        (spec_event(m, f, rx).1 matches EvAction::SendData(b) ==> (b == m.buf[m.idx as int]
            && spec_event(m, f, rx).0.idx == m.idx + 1)),
        (spec_event(m, f, rx).0.op == Op::Idle ==> (spec_event(m, f, rx).0.idx == m.len
            && spec_event(m, f, rx).0.result == Some(Ok::<(), Error>(())))),
        spec_event(m, f, rx).0.buf == m.buf,
{
}

/// A read stores each received byte at the next position and finishes
/// successfully exactly when the last requested byte arrives.
pub proof fn lemma_read_stores_in_order(m: I2cModel, f: EvFlags, rx: u8)
    requires
        m.op == Op::Read,
        m.idx < m.len <= CAP,
        m.buf.len() == CAP,
        !f.startbf,
        !f.addrf,
        f.rxdatne,
    ensures
        spec_event(m, f, rx).0.buf == m.buf.update(m.idx as int, rx),
        spec_event(m, f, rx).0.idx == m.idx + 1,
        (spec_event(m, f, rx).0.op == Op::Idle) == (m.idx + 1 == m.len),
{
}

/// An event with no transfer in flight changes nothing and masks the
/// interrupts.
pub proof fn lemma_idle_event_masks(m: I2cModel, f: EvFlags, rx: u8)
    requires
        m.op == Op::Idle,
    ensures
        spec_event(m, f, rx) == (m, EvAction::MaskAll),
{
}


/// The state and the register actions after feeding the events `evs`, each a
/// status snapshot with the data register beside it, in order.
pub open spec fn run_events(m: I2cModel, evs: Seq<(EvFlags, u8)>) -> (I2cModel, Seq<EvAction>)
    decreases evs.len(),
{
    if evs.len() == 0 {
        (m, Seq::empty())
    } else {
        let (m1, a) = spec_event(m, evs[0].0, evs[0].1);
        let (m2, rest) = run_events(m1, evs.drop_first());
        (m2, seq![a] + rest)
    }
}

/// Status with only the given flags raised.
pub open spec fn flags(startbf: bool, addrf: bool, txdate: bool, bsf: bool, rxdatne: bool) -> EvFlags {
    EvFlags { startbf, addrf, txdate, bsf, rxdatne }
}

/// START generated.
pub open spec fn start_event() -> (EvFlags, u8) {
    (flags(true, false, false, false, false), 0)
}

/// Address acknowledged.
pub open spec fn addr_event() -> (EvFlags, u8) {
    (flags(false, true, false, false, false), 0)
}

/// Data register empty while the shifter still works.
pub open spec fn tx_event() -> (EvFlags, u8) {
    (flags(false, false, true, false, false), 0)
}

/// Data register empty and the last byte shifted out.
pub open spec fn btf_event() -> (EvFlags, u8) {
    (flags(false, false, true, true, false), 0)
}

/// Byte `b` received.
pub open spec fn rx_event(b: u8) -> (EvFlags, u8) {
    (flags(false, false, false, false, true), b)
}

/// The events of a well-behaved bus during a write of `n > 0` bytes.
pub open spec fn write_events(n: nat) -> Seq<(EvFlags, u8)> {
    seq![start_event(), addr_event()] + tx_phase(n)
}

/// The events of a well-behaved bus during a read returning `data`.
pub open spec fn read_events(data: Seq<u8>) -> Seq<(EvFlags, u8)> {
    seq![start_event(), addr_event()] + rx_phase(data, 0)
}

/// The actions while a read of `n` bytes receives its bytes: continue until
/// one byte remains, then NACK and STOP, then done.
pub open spec fn read_data_actions(n: nat) -> Seq<EvAction> {
    Seq::new(
        n,
        |j: int|
            if j == n - 1 {
                EvAction::Done
            } else if j == n - 2 {
                EvAction::NackStop
            } else {
                EvAction::Continue
            },
    )
}

/// Feeding `a` then `b` is feeding `a + b`.
proof fn lemma_run_append(m: I2cModel, a: Seq<(EvFlags, u8)>, b: Seq<(EvFlags, u8)>)
    ensures
        run_events(m, a + b).0 == run_events(run_events(m, a).0, b).0,
        run_events(m, a + b).1 == run_events(m, a).1 + run_events(run_events(m, a).0, b).1,
    decreases a.len(),
{
    if a.len() == 0 {
        assert(a + b =~= b);
        assert(run_events(m, a).1 + run_events(m, b).1 =~= run_events(m, b).1);
    } else {
        let m1 = spec_event(m, a[0].0, a[0].1).0;
        assert((a + b).drop_first() =~= a.drop_first() + b);
        lemma_run_append(m1, a.drop_first(), b);
        assert(run_events(m, a + b).1 =~= run_events(m, a).1 + run_events(run_events(m, a).0, b).1);
    }
}

/// `k` data-register-empty events, then byte transfer finished.
pub open spec fn tx_phase(k: nat) -> Seq<(EvFlags, u8)> {
    Seq::new(k, |j: int| tx_event()) + seq![btf_event()]
}

/// Sending the `k` bytes of `buf` from `from`, then STOP.
pub open spec fn sends(buf: Seq<u8>, from: int, k: nat) -> Seq<EvAction> {
    Seq::new(k, |j: int| EvAction::SendData(buf[from + j])) + seq![EvAction::StopDone]
}

/// The bytes of `data` from position `i` on, each received.
pub open spec fn rx_phase(data: Seq<u8>, i: int) -> Seq<(EvFlags, u8)> {
    Seq::new((data.len() - i) as nat, |j: int| rx_event(data[i + j]))
}

/// The data phase of a write from the current position: each event sends the
/// next staged byte, and the final one stops the bus with success.
proof fn lemma_write_data_from(m: I2cModel)
    requires
        m.op == Op::Write,
        m.idx <= m.len <= CAP,
        m.buf.len() == CAP,
    ensures
        run_events(m, tx_phase((m.len - m.idx) as nat)).0 == finished(I2cModel { idx: m.len, ..m }, Ok(())),
        run_events(m, tx_phase((m.len - m.idx) as nat)).1 == sends(m.buf, m.idx as int, (m.len - m.idx) as nat),
    decreases m.len - m.idx,
{
    let k = (m.len - m.idx) as nat;
    let evs = tx_phase(k);
    if k == 0 {
        assert(evs =~= seq![btf_event()]);
        assert(evs.drop_first() =~= Seq::<(EvFlags, u8)>::empty());
        let m1 = finished(m, Ok(()));
        assert(spec_event(m, evs[0].0, evs[0].1) == (m1, EvAction::StopDone));
        assert(run_events(m1, evs.drop_first()) == (m1, Seq::<EvAction>::empty()));
        assert(run_events(m, evs).1 =~= sends(m.buf, m.idx as int, k));
    } else {
        let m1 = I2cModel { idx: m.idx + 1, ..m };
        assert(evs[0] == tx_event());
        assert(spec_event(m, evs[0].0, evs[0].1) == (m1, EvAction::SendData(m.buf[m.idx as int])));
        assert(evs.drop_first() =~= tx_phase((m1.len - m1.idx) as nat));
        lemma_write_data_from(m1);
        assert(run_events(m, evs).1 =~= sends(m.buf, m.idx as int, k));
    }
}

/// The data phase of a read from the current position: each event stores the
/// byte received at the next position, and the last one finishes with
/// success.
proof fn lemma_read_data_from(m: I2cModel, data: Seq<u8>)
    requires
        m.op == Op::Read,
        m.idx < m.len <= CAP,
        m.len == data.len(),
        m.buf.len() == CAP,
        forall|j: int| 0 <= j < m.idx ==> m.buf[j] == data[j],
    ensures
        ({
            let r = run_events(m, rx_phase(data, m.idx as int));
            &&& r.0.op == Op::Idle
            &&& r.0.result == Some(Ok::<(), Error>(()))
            &&& r.0.addr == m.addr
            &&& r.0.len == m.len
            &&& r.0.idx == m.len
            &&& r.0.buf.len() == CAP
            &&& r.0.buf.take(m.len as int) =~= data
            &&& r.1 =~= read_data_actions(m.len).subrange(m.idx as int, m.len as int)
        }),
    decreases m.len - m.idx,
{
    let k = (m.len - m.idx) as nat;
    let evs = rx_phase(data, m.idx as int);
    let n1 = I2cModel { idx: m.idx + 1, buf: m.buf.update(m.idx as int, data[m.idx as int]), ..m };
    assert(evs[0] == rx_event(data[m.idx as int]));
    if k == 1 {
        assert(evs.drop_first() =~= Seq::<(EvFlags, u8)>::empty());
        let f = finished(n1, Ok(()));
        assert(spec_event(m, evs[0].0, evs[0].1) == (f, EvAction::Done));
        assert(run_events(f, evs.drop_first()) == (f, Seq::<EvAction>::empty()));
        assert(read_data_actions(m.len).subrange(m.idx as int, m.len as int) =~= seq![
            EvAction::Done,
        ]);
        assert(run_events(m, evs).1 =~= seq![EvAction::Done]);
    } else {
        assert(spec_event(m, evs[0].0, evs[0].1).0 == n1);
        assert(evs.drop_first() =~= rx_phase(data, n1.idx as int));
        lemma_read_data_from(n1, data);
        let a = spec_event(m, evs[0].0, evs[0].1).1;
        assert(a == read_data_actions(m.len)[m.idx as int]);
        assert(read_data_actions(m.len).subrange(m.idx as int, m.len as int) =~= seq![a]
            + read_data_actions(m.len).subrange(n1.idx as int, m.len as int));
    }
}

/// A write puts exactly the staged bytes on the bus: staged with `n > 0`
/// bytes, a well-behaved bus (START, address acknowledged, `n` data-register-
/// empty events, byte transfer finished) receives the shifted address, the
/// `n` staged bytes in order, and STOP, and the transfer finishes with
/// success.
pub proof fn lemma_write_transfers_bytes(m: I2cModel, bytes: Seq<u8>)
    requires
        m.op == Op::Write,
        m.idx == 0,
        m.len == bytes.len(),
        0 < bytes.len() <= CAP,
        m.buf.len() == CAP,
        m.buf.take(bytes.len() as int) == bytes,
    ensures
        run_events(m, write_events(bytes.len())).0 == finished(I2cModel { idx: m.len, ..m }, Ok(())),
        run_events(m, write_events(bytes.len())).1 =~= seq![
            EvAction::SendAddress((m.addr * 2 % 256) as u8),
            EvAction::ClearAddr,
        ] + Seq::new(bytes.len(), |j: int| EvAction::SendData(bytes[j])) + seq![EvAction::StopDone],
{
    let head = seq![start_event(), addr_event()];
    let tail = tx_phase(bytes.len());
    assert(write_events(bytes.len()) =~= head + tail);
    lemma_run_append(m, head, tail);
    let h1 = head.drop_first();
    assert(h1 =~= seq![addr_event()]);
    assert(h1.drop_first() =~= Seq::<(EvFlags, u8)>::empty());
    let sa = EvAction::SendAddress((m.addr * 2 % 256) as u8);
    assert(spec_event(m, head[0].0, head[0].1) == (m, sa));
    assert(spec_event(m, h1[0].0, h1[0].1) == (m, EvAction::ClearAddr));
    assert(run_events(m, h1.drop_first()) == (m, Seq::<EvAction>::empty()));
    assert(run_events(m, h1).1 =~= seq![EvAction::ClearAddr]);
    assert(run_events(m, head).0 == m);
    assert(run_events(m, head).1 =~= seq![sa, EvAction::ClearAddr]);
    lemma_write_data_from(m);
    assert(sends(m.buf, 0, bytes.len()) =~= Seq::new(bytes.len(), |j: int| EvAction::SendData(bytes[j]))
        + seq![EvAction::StopDone]);
}

/// A read gives back exactly the bytes on the bus: staged for `n > 0` bytes,
/// a well-behaved bus (START, address acknowledged, `n` bytes received)
/// leaves those bytes, in order, as the first `n` of the buffer (what
/// [`State::received`] returns), NACKs the last byte, and finishes with
/// success.
pub proof fn lemma_read_returns_bus_bytes(m: I2cModel, data: Seq<u8>)
    requires
        m.op == Op::Read,
        m.idx == 0,
        m.len == data.len(),
        0 < data.len() <= CAP,
        m.buf.len() == CAP,
    ensures
        ({
            let r = run_events(m, read_events(data));
            &&& r.0.op == Op::Idle
            &&& r.0.result == Some(Ok::<(), Error>(()))
            &&& r.0.len == m.len
            &&& r.0.buf.take(m.len as int) == data
            &&& r.1 =~= seq![
                EvAction::SendAddress((m.addr * 2 % 256 + 1) as u8),
                if data.len() == 1 { EvAction::NackClearAddrStop } else { EvAction::ClearAddr },
            ] + read_data_actions(data.len())
        }),
{
    let head = seq![start_event(), addr_event()];
    let tail = rx_phase(data, 0);
    assert(read_events(data) =~= head + tail);
    lemma_run_append(m, head, tail);
    let h1 = head.drop_first();
    assert(h1 =~= seq![addr_event()]);
    assert(h1.drop_first() =~= Seq::<(EvFlags, u8)>::empty());
    let sa = EvAction::SendAddress((m.addr * 2 % 256 + 1) as u8);
    let ca = if data.len() == 1 { EvAction::NackClearAddrStop } else { EvAction::ClearAddr };
    assert(spec_event(m, head[0].0, head[0].1) == (m, sa));
    assert(spec_event(m, h1[0].0, h1[0].1) == (m, ca));
    assert(run_events(m, h1.drop_first()) == (m, Seq::<EvAction>::empty()));
    assert(run_events(m, h1).1 =~= seq![ca]);
    assert(run_events(m, head).0 == m);
    assert(run_events(m, head).1 =~= seq![sa, ca]);
    lemma_read_data_from(m, data);
    assert(read_data_actions(m.len).subrange(0, m.len as int) =~= read_data_actions(m.len));
}


/// Error classification: an acknowledge failure is reported as `Nack`
/// whatever else is flagged; otherwise a lost arbitration as `Arbitration`;
/// otherwise an overrun as `Overrun`; with none of the three flagged, the
/// cause is a bus error.
pub proof fn lemma_error_priority(f: ErFlags)
    ensures
        f.ackfail ==> spec_error_kind(f) == Error::Nack,
        !f.ackfail && f.arlost ==> spec_error_kind(f) == Error::Arbitration,
        !f.ackfail && !f.arlost && f.overrun ==> spec_error_kind(f) == Error::Overrun,
        !f.ackfail && !f.arlost && !f.overrun ==> spec_error_kind(f) == Error::Bus,
{
}

} // verus!
