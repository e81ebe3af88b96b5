//! The frame conversions at the edge of the bxCAN hardware: which frames may
//! be transmitted, and which received frames the CANopen layer sees.

use vstd::prelude::*;
use crate::app_meta::le16;
use crate::canopen::frame::Frame;

verus! {

/// Why a transport operation failed.
#[derive(Clone, Copy, Debug, PartialEq, Eq, Structural)]
pub enum TransportError {
    /// The identifier is not a valid 11-bit standard identifier, or the
    /// driver is not initialised.
    NotReady,
    /// All transmit mailboxes are busy.
    TxBusy,
    /// The receive FIFO overran and a frame was lost.
    Overrun,
}

/// Largest 11-bit standard identifier.
pub const STANDARD_ID_MAX: u16 = 0x7FF;

/// `bxcan::StandardId::new(raw)`, taken back to its raw value.
///
/// The crate's source returns `Some` exactly when `raw <= 0x7FF`, holding
/// `raw` unchanged; the contract states that.
#[verifier::external_body]
fn standard_id(raw: u16) -> (r: Option<u16>)
    ensures
        r == (if raw <= STANDARD_ID_MAX { Some(raw) } else { None::<u16> }),
{
    bxcan::StandardId::new(raw).map(|s| s.as_raw())
}

/// `bxcan::Data::new(bytes)`, taken back to its payload bytes.
///
/// The crate's source returns `None` when `bytes` is longer than 8 and
/// otherwise a payload holding exactly `bytes`; the contract states that.
#[verifier::external_body]
fn can_data(bytes: &[u8]) -> (r: Option<Vec<u8>>)
    ensures
        bytes@.len() <= 8 <==> r is Some,
        r matches Some(v) ==> v@ == bytes@,
{
    bxcan::Data::new(bytes).map(|d| d.as_ref().to_vec())
}

/// The identifier and payload to hand to the bxCAN mailbox for `frame`, or
/// `NotReady` when its identifier is not a valid standard identifier.
pub fn tx_parts(frame: &Frame) -> (r: Result<(u16, Vec<u8>), TransportError>)
    requires
        frame.wf(),
    ensures
        frame.id <= STANDARD_ID_MAX <==> r is Ok,
        r matches Ok((id, data)) ==> id == frame.id && data@ == frame.spec_payload(),
        r matches Err(e) ==> e == TransportError::NotReady,
{
    let id = match standard_id(frame.id) {
        Some(id) => id,
        None => return Err(TransportError::NotReady),
    };
    let data = match can_data(frame.payload()) {
        Some(d) => d,
        None => Vec::new(),
    };
    Ok((id, data))
}

/// The telemetry frame sent for `id` and `data`: `None` (nothing sent) when
/// `id` is not a standard identifier; a payload longer than 8 bytes is
/// replaced by an empty one. Telemetry is best-effort.
pub fn telemetry_frame(id: u16, data: &[u8]) -> (r: Option<Frame>)
    ensures
        id <= STANDARD_ID_MAX <==> r is Some,
        r matches Some(f) ==> {
            &&& f.wf()
            &&& f.id == id
            &&& f.spec_payload() == (if data@.len() <= 8 { data@ } else { Seq::<u8>::empty() })
        },
{
    let sid = match standard_id(id) {
        Some(s) => s,
        None => return None,
    };
    match can_data(data) {
        Some(d) => Frame::new(sid, d.as_slice()),
        None => Frame::new(sid, &[]),
    }
}

/// The bench telemetry payload: the phase tag, a zero byte, then the rotor
/// angle and the two coil currents as little-endian 16-bit words (each
/// current by its two's-complement bits).
pub fn telem_payload(phase: u8, angle: u16, ia: i16, ib: i16) -> (r: [u8; 8])
    ensures
        r@ == seq![phase, 0u8] + le16(angle) + le16(ia as u16) + le16(ib as u16),
{
    let ua = ia as u16;
    let ub = ib as u16;
    let r = [
        phase,
        0,
        (angle % 256) as u8,
        (angle / 256) as u8,
        (ua % 256) as u8,
        (ua / 256) as u8,
        (ub % 256) as u8,
        (ub / 256) as u8,
    ];
    assert(r@ =~= seq![phase, 0u8] + le16(angle) + le16(ia as u16) + le16(ib as u16));
    r
}

/// Convert a received hardware frame, given as its standard identifier
/// (`None` for an extended one) and its data (`None` for a remote frame), to
/// a [`Frame`]. Extended and remote frames are dropped.
pub fn convert_rx(standard_id: Option<u16>, data: Option<&[u8]>) -> (r: Option<Frame>)
    ensures
        r is Some <==> (standard_id is Some && data is Some && data.unwrap()@.len() <= 8),
        r matches Some(f) ==> f.wf() && f.id == standard_id.unwrap() && f.spec_payload()
            == data.unwrap()@,
{
    let id = match standard_id {
        Some(s) => s,
        None => return None,
    };
    let d = match data {
        Some(d) => d,
        None => return None,
    };
    Frame::new(id, d)
}

} // verus!
