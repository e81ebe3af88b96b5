//! CANopen object dictionary — Commutation Lab manufacturer profile.
//!
//! Layout:
//!   * `0x2000:01..0A` — commutation parameters (RW) → [`Params`]
//!   * `0x2001:01..06` — telemetry (RO)             → [`Telemetry`] snapshot
//!   * `0x2F00:01..05` — board management (reboot / stay / boot / invalidate /
//!     status)
//!
//! All objects are ≤4-byte scalars, so every access is an expedited SDO
//! transfer. Values cross the wire zero-extended into a `u32`; the size says
//! how many bytes are significant (1/2/4).

use vstd::prelude::*;

verus! {

/// Manufacturer index of the commutation parameters.
pub const IDX_PARAMS: u16 = 0x2000;
/// Manufacturer index of the telemetry snapshot.
pub const IDX_TELEMETRY: u16 = 0x2001;
/// Manufacturer index of the actions area.
pub const IDX_ACTIONS: u16 = 0x2002;
/// Board-management index (reboot / stay / boot / invalidate / status).
pub const IDX_MGMT: u16 = 0x2F00;

/// Management sub-index: reboot (write-only trigger).
pub const SUB_REBOOT: u8 = 0x01;
/// Management sub-index: stay in the bootloader (write-only trigger).
pub const SUB_STAY_IN_BOOT: u8 = 0x02;
/// Management sub-index: boot the app (write-only trigger).
pub const SUB_BOOT_APP: u8 = 0x03;
/// Management sub-index: invalidate the app image (write-only trigger).
pub const SUB_INVALIDATE_APP: u8 = 0x04;
/// Management sub-index: boot status word (read-only).
pub const SUB_STATUS: u8 = 0x05;

/// The live commutation parameters the `0x2000` objects read and write.
#[derive(Clone, Copy, Debug, PartialEq, Eq, Structural)]
pub struct Params {
    pub enable: bool,
    pub mode: u8,
    pub amplitude: i16,
    pub lead_angle: u16,
    pub direction: u8,
    pub offset: u16,
    pub pole_pairs: u16,
    pub ol_angle: u16,
    pub ol_rate: i16,
    pub shape: u8,
}

/// One coherent telemetry snapshot the `0x2001` objects read.
#[derive(Clone, Copy, Debug, PartialEq, Eq, Structural)]
pub struct Telemetry {
    pub pos: i32,
    pub theta_e: u16,
    pub vel: i32,
    pub iq: i16,
    pub id: i16,
    pub faults: u16,
}

/// A board-management action requested via `0x2F00`, for the caller to
/// execute (the actions need reset / flash context).
#[derive(Clone, Copy, Debug, PartialEq, Eq, Structural)]
pub enum MgmtAction {
    Reboot,
    StayInBoot,
    BootApp,
    InvalidateApp,
}

/// Why an object access failed.
#[derive(Clone, Copy, Debug, PartialEq, Eq, Structural)]
pub enum OdErr {
    /// No object at this index/sub — abort `0x0602_0000`.
    NoSuchObject,
    /// Object exists but is read-only — abort `0x0601_0002`.
    ReadOnly,
}

impl OdErr {
    /// CiA-301 abort code of an error.
    pub open spec fn spec_abort_code(self) -> u32 {
        match self {
            OdErr::NoSuchObject => 0x0602_0000,
            OdErr::ReadOnly => 0x0601_0002,
        }
    }

    /// CiA-301 SDO abort code for this error.
    pub fn abort_code(self) -> (r: u32)
        ensures
            r == self.spec_abort_code(),
    {
        match self {
            OdErr::NoSuchObject => 0x0602_0000,
            OdErr::ReadOnly => 0x0601_0002,
        }
    }
}

/// `0x2000:sub` is a commutation parameter.
pub open spec fn is_param_sub(sub: u8) -> bool {
    0x01 <= sub <= 0x0A
}

/// `0x2001:sub` is a telemetry value.
pub open spec fn is_telemetry_sub(sub: u8) -> bool {
    0x01 <= sub <= 0x06
}

/// Significant byte count of parameter `0x2000:sub`.
pub open spec fn param_size(sub: u8) -> u8 {
    if sub == 0x01 || sub == 0x02 || sub == 0x05 || sub == 0x0A { 1 } else { 2 }
}

/// The value of parameter `0x2000:sub`, zero-extended into a `u32`.
pub open spec fn param_value(p: Params, sub: u8) -> u32 {
    if sub == 0x01 {
        if p.enable { 1 } else { 0 }
    } else if sub == 0x02 {
        p.mode as u32
    } else if sub == 0x03 {
        p.amplitude as u16 as u32
    } else if sub == 0x04 {
        p.lead_angle as u32
    } else if sub == 0x05 {
        p.direction as u32
    } else if sub == 0x06 {
        p.offset as u32
    } else if sub == 0x07 {
        p.pole_pairs as u32
    } else if sub == 0x08 {
        p.ol_angle as u32
    } else if sub == 0x09 {
        p.ol_rate as u16 as u32
    } else {
        p.shape as u32
    }
}

/// The value and significant byte count of telemetry `0x2001:sub`.
pub open spec fn telemetry_value(t: Telemetry, sub: u8) -> (u32, u8) {
    if sub == 0x01 {
        (t.pos as u32, 4)
    } else if sub == 0x02 {
        (t.theta_e as u32, 2)
    } else if sub == 0x03 {
        (t.vel as u32, 4)
    } else if sub == 0x04 {
        (t.iq as u16 as u32, 2)
    } else if sub == 0x05 {
        (t.id as u16 as u32, 2)
    } else {
        (t.faults as u32, 2)
    }
}

/// What reading `index:sub` gives, with the boot-flag word `boot_flag`.
pub open spec fn spec_read(p: Params, t: Telemetry, boot_flag: u32, index: u16, sub: u8) -> Result<
    (u32, u8),
    OdErr,
> {
    if index == IDX_PARAMS && is_param_sub(sub) {
        Ok((param_value(p, sub), param_size(sub)))
    } else if index == IDX_TELEMETRY && is_telemetry_sub(sub) {
        Ok(telemetry_value(t, sub))
    } else if index == IDX_MGMT && sub == SUB_STATUS {
        Ok((boot_flag, 4))
    } else {
        Err(OdErr::NoSuchObject)
    }
}

/// The parameters after storing `val` into `0x2000:sub` (truncated to the
/// object's width; `enable` becomes `val != 0`).
pub open spec fn param_store(p: Params, sub: u8, val: u32) -> Params {
    if sub == 0x01 {
        Params { enable: val != 0, ..p }
    } else if sub == 0x02 {
        Params { mode: val as u8, ..p }
    } else if sub == 0x03 {
        Params { amplitude: val as i16, ..p }
    } else if sub == 0x04 {
        Params { lead_angle: val as u16, ..p }
    } else if sub == 0x05 {
        Params { direction: val as u8, ..p }
    } else if sub == 0x06 {
        Params { offset: val as u16, ..p }
    } else if sub == 0x07 {
        Params { pole_pairs: val as u16, ..p }
    } else if sub == 0x08 {
        Params { ol_angle: val as u16, ..p }
    } else if sub == 0x09 {
        Params { ol_rate: val as i16, ..p }
    } else {
        Params { shape: val as u8, ..p }
    }
}

/// What writing `val` to `index:sub` answers.
pub open spec fn spec_write_result(index: u16, sub: u8, val: u32) -> Result<Option<MgmtAction>, OdErr> {
    if index == IDX_PARAMS && is_param_sub(sub) {
        Ok(None)
    } else if index == IDX_TELEMETRY && is_telemetry_sub(sub) {
        Err(OdErr::ReadOnly)
    } else if index == IDX_MGMT && 0x01 <= sub <= 0x04 {
        if val == 0 {
            Ok(None)
        } else if sub == SUB_REBOOT {
            Ok(Some(MgmtAction::Reboot))
        } else if sub == SUB_STAY_IN_BOOT {
            Ok(Some(MgmtAction::StayInBoot))
        } else if sub == SUB_BOOT_APP {
            Ok(Some(MgmtAction::BootApp))
        } else {
            Ok(Some(MgmtAction::InvalidateApp))
        }
    } else if index == IDX_MGMT && sub == SUB_STATUS {
        Err(OdErr::ReadOnly)
    } else {
        Err(OdErr::NoSuchObject)
    }
}

/// The parameters after writing `val` to `index:sub`.
pub open spec fn spec_write_params(p: Params, index: u16, sub: u8, val: u32) -> Params {
    if index == IDX_PARAMS && is_param_sub(sub) {
        param_store(p, sub, val)
    } else {
        p
    }
}

/// Read an object. Returns `(value, size_bytes)`: the scalar zero-extended
/// into a `u32` and how many of its little-endian bytes are significant.
/// `boot_flag` is the current content of the shared boot-flag word, reported
/// by the `0x2F00:05` status object.
pub fn read(params: &Params, telem: &Telemetry, boot_flag: u32, index: u16, sub: u8) -> (r: Result<
    (u32, u8),
    OdErr,
>)
    ensures
        r == spec_read(*params, *telem, boot_flag, index, sub),
        r matches Ok((_, size)) ==> size == 1 || size == 2 || size == 4,
{
    if index == IDX_PARAMS {
        let p = params;
        if sub == 0x01 {
            return Ok((if p.enable { 1 } else { 0 }, 1));
        } else if sub == 0x02 {
            return Ok((p.mode as u32, 1));
        } else if sub == 0x03 {
            return Ok((p.amplitude as u16 as u32, 2));
        } else if sub == 0x04 {
            return Ok((p.lead_angle as u32, 2));
        } else if sub == 0x05 {
            return Ok((p.direction as u32, 1));
        } else if sub == 0x06 {
            return Ok((p.offset as u32, 2));
        } else if sub == 0x07 {
            return Ok((p.pole_pairs as u32, 2));
        } else if sub == 0x08 {
            return Ok((p.ol_angle as u32, 2));
        } else if sub == 0x09 {
            return Ok((p.ol_rate as u16 as u32, 2));
        } else if sub == 0x0A {
            return Ok((p.shape as u32, 1));
        }
    } else if index == IDX_TELEMETRY && 0x01 <= sub && sub <= 0x06 {
        let t = telem;
        let (v, sz): (u32, u8) = if sub == 0x01 {
            (t.pos as u32, 4)
        } else if sub == 0x02 {
            (t.theta_e as u32, 2)
        } else if sub == 0x03 {
            (t.vel as u32, 4)
        } else if sub == 0x04 {
            (t.iq as u16 as u32, 2)
        } else if sub == 0x05 {
            (t.id as u16 as u32, 2)
        } else {
            (t.faults as u32, 2)
        };
        return Ok((v, sz));
    } else if index == IDX_MGMT && sub == SUB_STATUS {
        return Ok((boot_flag, 4));
    }
    Err(OdErr::NoSuchObject)
}

/// Write an object. Only the low bytes of `val` that fit the object are
/// significant.
///
/// Returns `Ok(Some(action))` for a `0x2F00` management trigger (written
/// non-zero) the caller must execute, `Ok(None)` for a parameter write that
/// took effect immediately or a zero written to a trigger, and an error for a
/// read-only or absent object.
pub fn write(params: &mut Params, index: u16, sub: u8, val: u32) -> (r: Result<Option<MgmtAction>, OdErr>)
    ensures
        r == spec_write_result(index, sub, val),
        *final(params) == spec_write_params(*old(params), index, sub, val),
{
    if index == IDX_PARAMS && 0x01 <= sub && sub <= 0x0A {
        if sub == 0x01 {
            params.enable = val != 0;
        } else if sub == 0x02 {
            params.mode = val as u8;
        } else if sub == 0x03 {
            params.amplitude = val as i16;
        } else if sub == 0x04 {
            params.lead_angle = val as u16;
        } else if sub == 0x05 {
            params.direction = val as u8;
        } else if sub == 0x06 {
            params.offset = val as u16;
        } else if sub == 0x07 {
            params.pole_pairs = val as u16;
        } else if sub == 0x08 {
            params.ol_angle = val as u16;
        } else if sub == 0x09 {
            params.ol_rate = val as i16;
        } else {
            params.shape = val as u8;
        }
        Ok(None)
    } else if index == IDX_TELEMETRY && 0x01 <= sub && sub <= 0x06 {
        Err(OdErr::ReadOnly)
    } else if index == IDX_MGMT && 0x01 <= sub && sub <= 0x04 {
        if val == 0 {
            Ok(None)
        } else if sub == SUB_REBOOT {
            Ok(Some(MgmtAction::Reboot))
        } else if sub == SUB_STAY_IN_BOOT {
            Ok(Some(MgmtAction::StayInBoot))
        } else if sub == SUB_BOOT_APP {
            Ok(Some(MgmtAction::BootApp))
        } else {
            Ok(Some(MgmtAction::InvalidateApp))
        }
    } else if index == IDX_MGMT && sub == SUB_STATUS {
        Err(OdErr::ReadOnly)
    } else {
        Err(OdErr::NoSuchObject)
    }
}

/// `val` truncated to its low `size` bytes.
pub open spec fn truncated(val: u32, size: u8) -> u32 {
    if size == 1 {
        val % 256
    } else if size == 2 {
        val % 65536
    } else {
        val
    }
}

/// A parameter read back after a write gives the written value, truncated to
/// the object's width (the `enable` flag reads back as 1 for any non-zero
/// write and 0 for zero); writing a parameter changes no other parameter.
pub proof fn lemma_param_write_read_back(p: Params, t: Telemetry, boot_flag: u32, sub: u8, val: u32)
    requires
        is_param_sub(sub),
    ensures
        spec_write_result(IDX_PARAMS, sub, val) == Ok::<Option<MgmtAction>, OdErr>(None),
        spec_read(spec_write_params(p, IDX_PARAMS, sub, val), t, boot_flag, IDX_PARAMS, sub) == Ok::<
            (u32, u8),
            OdErr,
        >(
            (
                if sub == 0x01 {
                    if val != 0 { 1u32 } else { 0u32 }
                } else {
                    truncated(val, param_size(sub))
                },
                param_size(sub),
            ),
        ),
        forall|other: u8|
            is_param_sub(other) && other != sub ==> param_value(
                spec_write_params(p, IDX_PARAMS, sub, val),
                other,
            ) == param_value(p, other),
{
    let q = spec_write_params(p, IDX_PARAMS, sub, val);
    if sub == 0x02 || sub == 0x05 || sub == 0x0A {
        assert((val as u8) as u32 == val % 256) by (bit_vector);
    } else if sub == 0x03 || sub == 0x09 {
        assert(((val as i16) as u16) as u32 == val % 65536) by (bit_vector);
    } else if sub != 0x01 {
        assert((val as u16) as u32 == val % 65536) by (bit_vector);
    }
}

/// Telemetry and the status word are read-only: writing them is refused and
/// leaves the parameters unchanged, and reading them is unaffected by any
/// write.
pub proof fn lemma_read_only_objects(p: Params, t: Telemetry, boot_flag: u32, index: u16, sub: u8, val: u32)
    requires
        (index == IDX_TELEMETRY && is_telemetry_sub(sub)) || (index == IDX_MGMT && sub == SUB_STATUS),
    ensures
        spec_write_result(index, sub, val) == Err::<Option<MgmtAction>, OdErr>(OdErr::ReadOnly),
        spec_write_params(p, index, sub, val) == p,
        spec_read(p, t, boot_flag, index, sub) is Ok,
{
}


/// Each telemetry object reads the field it names, zero-extended, with its
/// width: `0x2001:01` the position, `:02` the electrical angle, `:03` the
/// velocity, `:04` the current in the q slot, `:05` the current in the d
/// slot, `:06` the fault / liveness word. Sub-index 0 and those past 6 do
/// not exist.
pub proof fn lemma_telemetry_objects(p: Params, t: Telemetry, boot_flag: u32)
    ensures
        spec_read(p, t, boot_flag, 0x2001, 0x01) == Ok::<(u32, u8), OdErr>((t.pos as u32, 4)),
        spec_read(p, t, boot_flag, 0x2001, 0x02) == Ok::<(u32, u8), OdErr>((t.theta_e as u32, 2)),
        spec_read(p, t, boot_flag, 0x2001, 0x03) == Ok::<(u32, u8), OdErr>((t.vel as u32, 4)),
        spec_read(p, t, boot_flag, 0x2001, 0x04) == Ok::<(u32, u8), OdErr>((t.iq as u16 as u32, 2)),
        spec_read(p, t, boot_flag, 0x2001, 0x05) == Ok::<(u32, u8), OdErr>((t.id as u16 as u32, 2)),
        spec_read(p, t, boot_flag, 0x2001, 0x06) == Ok::<(u32, u8), OdErr>((t.faults as u32, 2)),
        spec_read(p, t, boot_flag, 0x2001, 0x00) == Err::<(u32, u8), OdErr>(OdErr::NoSuchObject),
        forall|sub: u8|
            sub > 0x06 ==> #[trigger] spec_read(p, t, boot_flag, 0x2001, sub) == Err::<(u32, u8), OdErr>(
                OdErr::NoSuchObject,
            ),
{
}

/// Each parameter object reads the field it names, zero-extended, with its
/// width: `0x2000:01` enable (1 or 0), `:02` mode, `:03` amplitude, `:04`
/// lead angle, `:05` encoder direction, `:06` alignment offset, `:07` pole
/// pairs, `:08` open-loop angle, `:09` open-loop rate, `:0A` waveform shape.
/// The status object `0x2F00:05` reads the boot-flag word.
pub proof fn lemma_parameter_objects(p: Params, t: Telemetry, boot_flag: u32)
    ensures
        spec_read(p, t, boot_flag, 0x2000, 0x01) == Ok::<(u32, u8), OdErr>((if p.enable { 1u32 } else { 0u32 }, 1)),
        spec_read(p, t, boot_flag, 0x2000, 0x02) == Ok::<(u32, u8), OdErr>((p.mode as u32, 1)),
        spec_read(p, t, boot_flag, 0x2000, 0x03) == Ok::<(u32, u8), OdErr>((p.amplitude as u16 as u32, 2)),
        spec_read(p, t, boot_flag, 0x2000, 0x04) == Ok::<(u32, u8), OdErr>((p.lead_angle as u32, 2)),
        spec_read(p, t, boot_flag, 0x2000, 0x05) == Ok::<(u32, u8), OdErr>((p.direction as u32, 1)),
        spec_read(p, t, boot_flag, 0x2000, 0x06) == Ok::<(u32, u8), OdErr>((p.offset as u32, 2)),
        spec_read(p, t, boot_flag, 0x2000, 0x07) == Ok::<(u32, u8), OdErr>((p.pole_pairs as u32, 2)),
        spec_read(p, t, boot_flag, 0x2000, 0x08) == Ok::<(u32, u8), OdErr>((p.ol_angle as u32, 2)),
        spec_read(p, t, boot_flag, 0x2000, 0x09) == Ok::<(u32, u8), OdErr>((p.ol_rate as u16 as u32, 2)),
        spec_read(p, t, boot_flag, 0x2000, 0x0A) == Ok::<(u32, u8), OdErr>((p.shape as u32, 1)),
        spec_read(p, t, boot_flag, 0x2000, 0x00) == Err::<(u32, u8), OdErr>(OdErr::NoSuchObject),
        forall|sub: u8|
            sub > 0x0A ==> #[trigger] spec_read(p, t, boot_flag, 0x2000, sub) == Err::<(u32, u8), OdErr>(
                OdErr::NoSuchObject,
            ),
        spec_read(p, t, boot_flag, 0x2F00, 0x05) == Ok::<(u32, u8), OdErr>((boot_flag, 4)),
{
}

/// Writing a parameter object stores the value, truncated to its width, in
/// the field the object names and nowhere else: `0x2000:01` enable (set iff
/// non-zero), `:02` mode, `:03` amplitude, `:04` lead angle, `:05` encoder
/// direction, `:06` alignment offset, `:07` pole pairs, `:08` open-loop
/// angle, `:09` open-loop rate, `:0A` waveform shape.
pub proof fn lemma_parameter_writes(p: Params, v: u32)
    ensures
        spec_write_params(p, 0x2000, 0x01, v) == (Params { enable: v != 0, ..p }),
        spec_write_params(p, 0x2000, 0x02, v) == (Params { mode: v as u8, ..p }),
        spec_write_params(p, 0x2000, 0x03, v) == (Params { amplitude: v as i16, ..p }),
        spec_write_params(p, 0x2000, 0x04, v) == (Params { lead_angle: v as u16, ..p }),
        spec_write_params(p, 0x2000, 0x05, v) == (Params { direction: v as u8, ..p }),
        spec_write_params(p, 0x2000, 0x06, v) == (Params { offset: v as u16, ..p }),
        spec_write_params(p, 0x2000, 0x07, v) == (Params { pole_pairs: v as u16, ..p }),
        spec_write_params(p, 0x2000, 0x08, v) == (Params { ol_angle: v as u16, ..p }),
        spec_write_params(p, 0x2000, 0x09, v) == (Params { ol_rate: v as i16, ..p }),
        spec_write_params(p, 0x2000, 0x0A, v) == (Params { shape: v as u8, ..p }),
        forall|sub: u8|
            1 <= sub <= 0x0A ==> #[trigger] spec_write_result(0x2000, sub, v) == Ok::<
                Option<MgmtAction>,
                OdErr,
            >(None),
        forall|index: u16, sub: u8|
            !(index == 0x2000 && 1 <= sub <= 0x0A) ==> #[trigger] spec_write_params(p, index, sub, v)
                == p,
{
}

/// Board management: a non-zero write to `0x2F00:01` asks for a reboot,
/// `:02` for staying in the bootloader, `:03` for booting the app, `:04` for
/// invalidating the app; writing zero to any of them does nothing; the
/// status object `:05` refuses writes.
pub proof fn lemma_management_writes(v: u32)
    ensures
        spec_write_result(0x2F00, 0x01, v) == Ok::<Option<MgmtAction>, OdErr>(
            if v != 0 { Some(MgmtAction::Reboot) } else { None },
        ),
        spec_write_result(0x2F00, 0x02, v) == Ok::<Option<MgmtAction>, OdErr>(
            if v != 0 { Some(MgmtAction::StayInBoot) } else { None },
        ),
        spec_write_result(0x2F00, 0x03, v) == Ok::<Option<MgmtAction>, OdErr>(
            if v != 0 { Some(MgmtAction::BootApp) } else { None },
        ),
        spec_write_result(0x2F00, 0x04, v) == Ok::<Option<MgmtAction>, OdErr>(
            if v != 0 { Some(MgmtAction::InvalidateApp) } else { None },
        ),
        spec_write_result(0x2F00, 0x05, v) == Err::<Option<MgmtAction>, OdErr>(OdErr::ReadOnly),
        spec_write_result(0x2F00, 0x00, v) == Err::<Option<MgmtAction>, OdErr>(OdErr::NoSuchObject),
{
}


/// The CiA-301 abort codes: an absent object answers `0x0602_0000`, a write
/// to a read-only object `0x0601_0002`.
pub proof fn lemma_abort_codes(e: OdErr)
    ensures
        e == OdErr::NoSuchObject ==> e.spec_abort_code() == 0x0602_0000,
        e == OdErr::ReadOnly ==> e.spec_abort_code() == 0x0601_0002,
{
}

} // verus!
