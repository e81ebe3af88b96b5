//! Boot-time decisions shared by the bootloader and the app: whether the
//! image in the app region may be started, whether to stay in the bootloader,
//! and which CAN requests send a running image back to it.

use vstd::prelude::*;
use crate::app_meta::{AppMeta, APP_BASE};
use crate::canopen::frame::Frame;
use crate::canopen::mgmt::{spec_reset_flag, FLAG_STAY_IN_BOOT};
use crate::canopen::od::MgmtAction;

verus! {

/// End (exclusive) of the device's flash.
pub const FLASH_END: u32 = 0x0802_0000;
/// Base of RAM.
pub const RAM_BASE: u32 = 0x2000_0000;
/// COB-ID of SDO requests to node 1, where update and stay requests arrive.
pub const SDO_RX_COBID: u16 = 0x601;

/// How the image was judged, as the bootloader reports it.
#[derive(Clone, Copy, Debug, PartialEq, Eq, Structural)]
pub enum MetaState {
    /// No record: the structural heuristic decided.
    Absent,
    /// Record present and its CRC matches the region.
    Valid,
    /// Record present but it does not vouch for the region.
    BadCrc,
}

/// The vector-table heuristic: the initial stack pointer points into RAM and
/// the reset vector into the app's flash.
pub open spec fn spec_heuristic_valid(app_sp: u32, app_rv: u32) -> bool {
    &&& app_sp / 65536 == RAM_BASE / 65536
    &&& APP_BASE <= app_rv < FLASH_END
}

/// Structural validity of an image without a record: the first two vector
/// table words (`app_sp` at `APP_BASE`, `app_rv` at `APP_BASE + 4`).
pub fn heuristic_app_valid(app_sp: u32, app_rv: u32) -> (r: bool)
    ensures
        r == spec_heuristic_valid(app_sp, app_rv),
{
    let masked = app_sp & 0xFFFF_0000;
    assert((masked == 0x2000_0000) == (app_sp / 65536 == 0x2000)) by (bit_vector)
        requires masked == app_sp & 0xFFFF_0000;
    let sp_ok = masked == RAM_BASE;
    let rv_ok = app_rv >= APP_BASE && app_rv < FLASH_END;
    sp_ok && rv_ok
}

/// Whether the image may be started, and how that was decided. A present
/// record is authoritative: the image is valid iff the record vouches for
/// the region. Without a record, the vector-table heuristic decides.
pub fn app_validity(meta: &AppMeta, region: &[u8], app_sp: u32, app_rv: u32) -> (r: (bool, MetaState))
    requires
        meta.present() && meta.length_sane() ==> meta.length <= region@.len(),
    ensures
        meta.present() ==> r.0 == meta.vouches_for(region@) && r.1 == (if r.0 {
            MetaState::Valid
        } else {
            MetaState::BadCrc
        }),
        !meta.present() ==> r.0 == spec_heuristic_valid(app_sp, app_rv) && r.1 == MetaState::Absent,
{
    if meta.is_present() {
        let ok = meta.verify_app(region);
        (ok, if ok { MetaState::Valid } else { MetaState::BadCrc })
    } else {
        (heuristic_app_valid(app_sp, app_rv), MetaState::Absent)
    }
}

/// Stay in the bootloader when the stay flag is set or the image is invalid.
pub open spec fn spec_should_stay(boot_flag: u32, app_valid: bool) -> bool {
    boot_flag == FLAG_STAY_IN_BOOT || !app_valid
}

/// Whether the bootloader stays (serving downloads) instead of starting the
/// app, given the boot flag it consumed and the image's validity.
pub fn should_stay(boot_flag: u32, app_valid: bool) -> (r: bool)
    ensures
        r == spec_should_stay(boot_flag, app_valid),
{
    boot_flag == FLAG_STAY_IN_BOOT || !app_valid
}

/// The CiA-302 "enter update" poke: an SDO to node 1 addressing index
/// `0x1F51` (program control).
pub open spec fn spec_is_enter_update(id: u16, d: Seq<u8>) -> bool {
    id == SDO_RX_COBID && d.len() >= 3 && d[1] == 0x51 && d[2] == 0x1F
}

/// A board-management stay or reboot write: an SDO download to node 1
/// addressing `0x2F00:01` or `0x2F00:02`.
pub open spec fn spec_is_mgmt_stay(id: u16, d: Seq<u8>) -> bool {
    &&& id == SDO_RX_COBID
    &&& d.len() >= 4
    &&& (d[0] & 0xE0) == 0x20
    &&& d[1] == 0x00
    &&& d[2] == 0x2F
    &&& (d[3] == 0x01 || d[3] == 0x02)
}

/// Whether `payload` received on `id` is the enter-update request that sends
/// a running image back to the bootloader for a reflash.
pub fn is_enter_update(id: u16, payload: &[u8]) -> (r: bool)
    ensures
        r == spec_is_enter_update(id, payload@),
{
    id == SDO_RX_COBID && payload.len() >= 3 && payload[1] == 0x51 && payload[2] == 0x1F
}

/// Whether `frame`, received during the boot-time listen window, asks the
/// bootloader to stay: the enter-update poke or a management stay / reboot
/// write.
pub fn listen_window_wants_stay(frame: &Frame) -> (r: bool)
    requires
        frame.wf(),
    ensures
        r == (spec_is_enter_update(frame.id, frame.spec_payload()) || spec_is_mgmt_stay(
            frame.id,
            frame.spec_payload(),
        )),
{
    if frame.id != SDO_RX_COBID {
        return false;
    }
    let d = frame.payload();
    let is_enter_update = d.len() >= 3 && d[1] == 0x51 && d[2] == 0x1F;
    let is_mgmt_stay = d.len() >= 4 && (d[0] & 0xE0) == 0x20 && d[1] == 0x00 && d[2] == 0x2F
        && (d[3] == 0x01 || d[3] == 0x02);
    is_enter_update || is_mgmt_stay
}

/// Polls of the boot-time listen window (about 300 ms on the bare reset
/// clock).
pub const LISTEN_BUDGET: u32 = 1_200_000;

/// `frame` asks the bootloader to stay.
pub open spec fn spec_wants_stay(frame: Frame) -> bool {
    spec_is_enter_update(frame.id, frame.spec_payload()) || spec_is_mgmt_stay(
        frame.id,
        frame.spec_payload(),
    )
}

/// What the listen window does after one poll.
#[derive(Clone, Copy, Debug, PartialEq, Eq, Structural)]
pub enum ListenStep {
    /// A stay request arrived: stay in the bootloader.
    Stay,
    /// Poll again; this many polls are left.
    KeepPolling(u32),
    /// The budget is spent without a stay request: start the app.
    GiveUp,
}

/// One poll of the listen window, with `left` polls left before it
/// (`left > 0`) and `polled` the frame it received, if any: stay on a stay
/// request, give up when it was the last poll, else poll again.
pub fn listen_step(left: u32, polled: Option<&Frame>) -> (r: ListenStep)
    requires
        left > 0,
        polled matches Some(f) ==> f.wf(),
    ensures
        (polled matches Some(f) && spec_wants_stay(*f)) ==> r == ListenStep::Stay,
        !(polled matches Some(f) && spec_wants_stay(*f)) ==> r == (if left == 1 {
            ListenStep::GiveUp
        } else {
            ListenStep::KeepPolling((left - 1) as u32)
        }),
{
    if let Some(f) = polled {
        if listen_window_wants_stay(f) {
            return ListenStep::Stay;
        }
    }
    if left == 1 {
        ListenStep::GiveUp
    } else {
        ListenStep::KeepPolling(left - 1)
    }
}

/// `polls[i]` is a frame that asks to stay.
pub open spec fn stay_at(polls: Seq<Option<Frame>>, i: int) -> bool {
    polls[i] matches Some(f) && spec_wants_stay(f)
}

/// The listen window over the results of its polls, in order (`None` where
/// a poll received nothing), with `budget` polls: true exactly when one of
/// the first `budget` polls received a stay request. The window stops at
/// the first such poll.
pub fn listen_window(polls: &[Option<Frame>], budget: u32) -> (r: bool)
    requires
        forall|i: int| 0 <= i < polls@.len() ==> (#[trigger] polls@[i] matches Some(f) ==> f.wf()),
    ensures
        r == exists|i: int| 0 <= i < budget && i < polls@.len() && #[trigger] stay_at(polls@, i),
{
    if budget == 0 {
        return false;
    }
    let mut left = budget;
    let mut i: usize = 0;
    while i < polls.len()
        invariant
            0 < left <= budget,
            i + left == budget,
            i <= polls@.len(),
            forall|i: int| 0 <= i < polls@.len() ==> (#[trigger] polls@[i] matches Some(f) ==> f.wf()),
            forall|j: int| 0 <= j < i ==> !#[trigger] stay_at(polls@, j),
        decreases polls@.len() - i,
    {
        let polled = match &polls[i] {
            Some(f) => Some(f),
            None => None,
        };
        assert(polls@[i as int] matches Some(f) ==> f.wf());
        match listen_step(left, polled) {
            ListenStep::Stay => {
                assert(stay_at(polls@, i as int));
                return true;
            },
            ListenStep::GiveUp => {
                assert(!stay_at(polls@, i as int));
                return false;
            },
            ListenStep::KeepPolling(n) => {
                assert(!stay_at(polls@, i as int));
                left = n;
            },
        }
        i += 1;
    }
    false
}

/// A stay request always lands in the bootloader: the flag that the
/// stay-in-boot and invalidate actions write before their reset makes the
/// next boot stay whatever the image looks like; the flag the boot-app action
/// writes starts the image exactly when it is valid; and an image the
/// bootloader judges invalid is never started, whatever the flag.
pub proof fn lemma_stay_is_honoured(action: MgmtAction, app_valid: bool, boot_flag: u32)
    ensures
        action == MgmtAction::StayInBoot || action == MgmtAction::InvalidateApp ==> (
        spec_reset_flag(action) matches Some(f) && spec_should_stay(f, app_valid)),
        action == MgmtAction::BootApp ==> (spec_reset_flag(action) matches Some(f)
            && spec_should_stay(f, app_valid) == !app_valid),
        !app_valid ==> spec_should_stay(boot_flag, app_valid),
        boot_flag != FLAG_STAY_IN_BOOT && app_valid ==> !spec_should_stay(boot_flag, app_valid),
{
}


/// The vector-table heuristic accepts exactly a stack pointer in the 64 K
/// RAM block at `0x2000_0000` together with a reset vector in the app's
/// flash `[APP_BASE, FLASH_END)`; in particular an erased vector table
/// (all ones) is rejected.
pub proof fn lemma_heuristic_bounds(app_sp: u32, app_rv: u32)
    ensures
        spec_heuristic_valid(app_sp, app_rv) <==> (0x2000_0000 <= app_sp < 0x2001_0000
            && 0x0800_4000 <= app_rv < 0x0802_0000),
        !spec_heuristic_valid(0xFFFF_FFFF, app_rv),
        !spec_heuristic_valid(app_sp, 0xFFFF_FFFF),
{
}

/// The enter-update request is exactly an SDO to node 1 (COB-ID `0x601`)
/// whose index bytes (1 and 2, little-endian) address `0x1F51`, program
/// control; any other index, such as `0x1F56`, is not one.
pub proof fn lemma_enter_update_is_program_control(id: u16, d: Seq<u8>)
    ensures
        spec_is_enter_update(id, d) <==> (id == 0x601 && d.len() >= 3 && d[1] == 0x51 && d[2]
            == 0x1F),
        spec_is_enter_update(id, d) ==> d[1] + 256 * d[2] == 0x1F51,
        d.len() >= 3 && d[1] != 0x51 ==> !spec_is_enter_update(id, d),
        id != 0x601 ==> !spec_is_enter_update(id, d),
{
}

/// During the listen window the bootloader stays exactly for a frame on
/// COB-ID `0x601` that is the enter-update request (index `0x1F51`) or an
/// SDO download (command `0x2_`) to `0x2F00:01` (reboot) or `0x2F00:02`
/// (stay in the bootloader). Both management sub-indices count; any other
/// sub-index, index, command or COB-ID does not.
pub proof fn lemma_listen_stay_requests(f: Frame)
    requires
        f.wf(),
    ensures
        spec_wants_stay(f) <==> (f.id == 0x601 && ((f.spec_payload().len() >= 3
            && f.spec_payload()[1] == 0x51 && f.spec_payload()[2] == 0x1F) || (
        f.spec_payload().len() >= 4 && f.spec_payload()[0] & 0xE0 == 0x20 && f.spec_payload()[1]
            == 0x00 && f.spec_payload()[2] == 0x2F && (f.spec_payload()[3] == 0x01
            || f.spec_payload()[3] == 0x02)))),
        f.id == 0x601 && f.spec_payload().len() >= 4 && f.spec_payload()[0] & 0xE0 == 0x20
            && f.spec_payload()[1] == 0x00 && f.spec_payload()[2] == 0x2F && f.spec_payload()[3]
            == 0x01 ==> spec_wants_stay(f),
        f.id == 0x601 && f.spec_payload().len() >= 4 && f.spec_payload()[0] & 0xE0 == 0x20
            && f.spec_payload()[1] == 0x00 && f.spec_payload()[2] == 0x2F && f.spec_payload()[3]
            == 0x02 ==> spec_wants_stay(f),
        f.id != 0x601 ==> !spec_wants_stay(f),
{
}

} // verus!
