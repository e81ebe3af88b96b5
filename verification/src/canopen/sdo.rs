//! Minimal expedited SDO server over the manufacturer object dictionary.
//!
//! Standard SDO framing for node 1: master → `0x601`, node → `0x581`. Every
//! object is a ≤4-byte scalar, so only expedited transfers are served.

use vstd::prelude::*;
use crate::app_meta::{le32, from_le32, u32_le};
use crate::canopen::od::{self, MgmtAction, Params, Telemetry, OdErr, spec_read, spec_write_result, spec_write_params};

verus! {

/// Node id of this drive.
pub const NODE_ID: u16 = 1;
/// COB-ID of requests from the master to this node.
pub const RX_COBID: u16 = 0x600 + NODE_ID;
/// COB-ID of responses from this node to the master.
pub const TX_COBID: u16 = 0x580 + NODE_ID;

/// Client command specifier: initiate download (master writes).
pub const CCS_DOWNLOAD: u8 = 0x20;
/// Client command specifier: initiate upload (master reads).
pub const CCS_UPLOAD: u8 = 0x40;
/// Server command specifier base of an initiate-upload response.
pub const SCS_UPLOAD_OK: u8 = 0x40;
/// Server command specifier of a download acknowledgement.
pub const SCS_DOWNLOAD_OK: u8 = 0x60;
/// Server command specifier of an abort.
pub const SCS_ABORT: u8 = 0x80;

/// The result of handling one SDO frame.
#[derive(Clone, Copy, Debug)]
pub enum SdoOutcome {
    /// Send this response frame.
    Reply([u8; 8]),
    /// Send the response, then execute the management action.
    Mgmt(MgmtAction, [u8; 8]),
    /// Not an SDO this node serves: drop it.
    Ignore,
}

/// The object index a request addresses (bytes 1..3, little-endian).
pub open spec fn req_index(d: Seq<u8>) -> u16 {
    (d[1] + 256 * d[2]) as u16
}

/// An abort response frame for `index:sub` with `code`.
pub open spec fn spec_abort(index: u16, sub: u8, code: u32) -> Seq<u8> {
    seq![SCS_ABORT, (index % 256) as u8, (index / 256) as u8, sub] + le32(code)
}

/// The expedited upload response to request `d` carrying `val` of `size`
/// significant bytes: `0x43 | (4 - size) << 2`, the echoed index and sub, then
/// the value little-endian.
pub open spec fn upload_frame(d: Seq<u8>, val: u32, size: u8) -> Seq<u8> {
    seq![(0x43 + 4 * (4 - size)) as u8, d[1], d[2], d[3]] + le32(val)
}

/// The download acknowledgement to request `d`.
pub open spec fn download_ack(d: Seq<u8>) -> Seq<u8> {
    seq![SCS_DOWNLOAD_OK, d[1], d[2], d[3], 0u8, 0u8, 0u8, 0u8]
}

/// `r` replies with exactly the frame `f`.
pub open spec fn replies(r: SdoOutcome, f: Seq<u8>) -> bool {
    r matches SdoOutcome::Reply(g) && g@ == f
}

/// Build an SDO abort response frame.
pub fn abort(index: u16, sub: u8, code: u32) -> (f: [u8; 8])
    ensures
        f@ == spec_abort(index, sub, code),
{
    let i0 = (index & 0xff) as u8;
    let i1 = (index >> 8) as u8;
    assert(i0 == index % 256) by (bit_vector)
        requires i0 == (index & 0xff) as u8;
    assert(i1 == index / 256) by (bit_vector)
        requires i1 == (index >> 8) as u8;
    let c = u32_le(code);
    let f = [SCS_ABORT, i0, i1, sub, c.0, c.1, c.2, c.3];
    assert(f@ =~= spec_abort(index, sub, code));
    f
}

/// Handle one expedited SDO request `d` against the object dictionary.
///
/// An initiate-upload (`d[0] & 0xE0 == 0x40`) reads `index:sub` and answers
/// with the value, or an abort carrying the error's code. An
/// initiate-download (`0x20`) writes the little-endian value in bytes 4..8
/// and acknowledges, handing back any management action to execute after the
/// acknowledgement is sent, or answers an abort. Anything else is ignored.
/// `boot_flag` is the current boot-flag word (the status object reads it).
pub fn handle_sdo(params: &mut Params, telem: &Telemetry, boot_flag: u32, d: &[u8; 8]) -> (r: SdoOutcome)
    ensures
        ({
            let index = req_index(d@);
            let sub = d@[3];
            let ccs = d@[0] & 0xE0;
            if ccs == CCS_UPLOAD {
                &&& *final(params) == *old(params)
                &&& match spec_read(*old(params), *telem, boot_flag, index, sub) {
                    Ok((v, s)) => replies(r, upload_frame(d@, v, s)),
                    Err(e) => replies(r, spec_abort(index, sub, e.spec_abort_code())),
                }
            } else if ccs == CCS_DOWNLOAD {
                let val = from_le32(d@, 4);
                &&& *final(params) == spec_write_params(*old(params), index, sub, val)
                &&& match spec_write_result(index, sub, val) {
                    Ok(None) => replies(r, download_ack(d@)),
                    Ok(Some(a)) => r matches SdoOutcome::Mgmt(b, g) && b == a && g@ == download_ack(d@),
                    Err(e) => replies(r, spec_abort(index, sub, e.spec_abort_code())),
                }
            } else {
                &&& *final(params) == *old(params)
                &&& r is Ignore
            }
        }),
{
    let ccs = d[0] & 0xE0;
    let index = (d[1] as u16) | ((d[2] as u16) << 8);
    let (d1, d2) = (d[1], d[2]);
    assert(index == d1 + 256 * d2) by (bit_vector)
        requires index == (d1 as u16) | ((d2 as u16) << 8);
    let sub = d[3];
    if ccs == CCS_UPLOAD {
        match od::read(params, telem, boot_flag, index, sub) {
            Ok((val, size)) => {
                let n = 4 - size;
                let cmd = SCS_UPLOAD_OK | ((n & 0x3) << 2) | 0b11;
                assert(cmd == 0x43 + 4 * (4 - size)) by (bit_vector)
                    requires
                        cmd == SCS_UPLOAD_OK | ((n & 0x3) << 2) | 0b11,
                        n == 4 - size,
                        size == 1 || size == 2 || size == 4,
                        SCS_UPLOAD_OK == 0x40;
                let v = u32_le(val);
                let f = [cmd, d[1], d[2], sub, v.0, v.1, v.2, v.3];
                assert(f@ =~= upload_frame(d@, val, size));
                SdoOutcome::Reply(f)
            },
            Err(e) => SdoOutcome::Reply(abort(index, sub, e.abort_code())),
        }
    } else if ccs == CCS_DOWNLOAD {
        let val = (d[4] as u32) | ((d[5] as u32) << 8) | ((d[6] as u32) << 16) | ((d[7] as u32)
            << 24);
        let (d4, d5, d6, d7) = (d[4], d[5], d[6], d[7]);
        assert(val == d4 + 256 * d5 + 65536 * d6 + 16777216 * d7) by (bit_vector)
            requires
                val == (d4 as u32) | ((d5 as u32) << 8) | ((d6 as u32) << 16) | ((d7 as u32) << 24);
        let ack = [SCS_DOWNLOAD_OK, d[1], d[2], sub, 0, 0, 0, 0];
        assert(ack@ =~= download_ack(d@));
        match od::write(params, index, sub, val) {
            Ok(None) => SdoOutcome::Reply(ack),
            Ok(Some(action)) => SdoOutcome::Mgmt(action, ack),
            Err(e) => SdoOutcome::Reply(abort(index, sub, e.abort_code())),
        }
    } else {
        SdoOutcome::Ignore
    }
}


/// SDO framing on the wire. A request addresses the index in bytes 1 and 2,
/// low byte first, and the sub-index in byte 3; a download carries its value
/// in bytes 4..8, low byte first. The expedited upload answer's command byte
/// is `0x4F`, `0x4B` or `0x43` for a 1-, 2- or 4-byte value, followed by the
/// echoed index and sub-index and the value low byte first; the download
/// acknowledgement is `0x60` with the echoed index and sub-index and zero
/// data; an abort is `0x80`, the index low byte first, the sub-index, then
/// the abort code low byte first.
pub proof fn lemma_sdo_wire_format(d: Seq<u8>, val: u32, index: u16, sub: u8, code: u32)
    requires
        d.len() == 8,
    ensures
        req_index(d) == d[1] + 256 * d[2],
        from_le32(d, 4) == d[4] + 256 * d[5] + 65536 * d[6] + 16777216 * d[7],
        upload_frame(d, val, 1)[0] == 0x4F,
        upload_frame(d, val, 2)[0] == 0x4B,
        upload_frame(d, val, 4)[0] == 0x43,
        forall|size: u8|
            #![trigger upload_frame(d, val, size)]
            upload_frame(d, val, size).len() == 8 && upload_frame(d, val, size)[1] == d[1]
                && upload_frame(d, val, size)[2] == d[2] && upload_frame(d, val, size)[3] == d[3]
                && upload_frame(d, val, size)[4] == val % 256 && upload_frame(d, val, size)[5] == (
            val / 256) % 256 && upload_frame(d, val, size)[6] == (val / 65536) % 256
                && upload_frame(d, val, size)[7] == val / 16777216,
        download_ack(d) == seq![0x60u8, d[1], d[2], d[3], 0u8, 0u8, 0u8, 0u8],
        spec_abort(index, sub, code).len() == 8,
        spec_abort(index, sub, code)[0] == 0x80,
        spec_abort(index, sub, code)[1] == index % 256,
        spec_abort(index, sub, code)[2] == index / 256,
        spec_abort(index, sub, code)[3] == sub,
        spec_abort(index, sub, code)[4] == code % 256,
        spec_abort(index, sub, code)[5] == (code / 256) % 256,
        spec_abort(index, sub, code)[6] == (code / 65536) % 256,
        spec_abort(index, sub, code)[7] == code / 16777216,
{
}

} // verus!
