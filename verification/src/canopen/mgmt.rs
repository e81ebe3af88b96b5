//! Board-management actions (`0x2F00`) and the independent watchdog.
//!
//! The boot-flag word lives in no-init RAM shared by the bootloader and the
//! app: `FLAG_STAY_IN_BOOT` makes the next boot stay in the bootloader, and
//! `FLAG_BOOT_APP` explicitly requests an app boot. A management action is
//! carried out by writing the flag its reset needs (if any) and resetting.

use vstd::prelude::*;
use crate::canopen::od::MgmtAction;

verus! {

/// Manufacturer index for board management.
pub const MGMT_INDEX: u16 = 0x2F00;

/// Address of the no-init RAM boot-flag word (top of RAM).
pub const BOOT_FLAG_ADDR: u32 = 0x2000_5FF8;
/// Boot-flag value that makes the bootloader stay instead of booting the app.
pub const FLAG_STAY_IN_BOOT: u32 = 0xB007_57A4;
/// Boot-flag value written to request an app boot (clears a stale stay).
pub const FLAG_BOOT_APP: u32 = 0x0000_0000;

/// The boot-flag value written before the reset that carries out `action`,
/// or `None` for a plain reset that leaves the flag as it is.
pub open spec fn spec_reset_flag(action: MgmtAction) -> Option<u32> {
    match action {
        MgmtAction::Reboot => None,
        MgmtAction::StayInBoot => Some(FLAG_STAY_IN_BOOT),
        MgmtAction::InvalidateApp => Some(FLAG_STAY_IN_BOOT),
        MgmtAction::BootApp => Some(FLAG_BOOT_APP),
    }
}

/// Boot-flag value to write before resetting for `action`: a reboot honours
/// whatever the flag says, stay-in-boot lands in the bootloader, boot-app
/// clears the stay flag, and an app that cannot invalidate its own image
/// falls back to staying in the bootloader, which owns flash for a reflash.
pub fn reset_flag(action: MgmtAction) -> (r: Option<u32>)
    ensures
        r == spec_reset_flag(action),
{
    match action {
        MgmtAction::Reboot => None,
        MgmtAction::StayInBoot | MgmtAction::InvalidateApp => Some(FLAG_STAY_IN_BOOT),
        MgmtAction::BootApp => Some(FLAG_BOOT_APP),
    }
}

/// Independent watchdog (IWDG), LSI ≈ 40 kHz, prescaler /256: the timeout is
/// `(reload + 1) * 256 / 40 kHz`. The value records the reload programmed;
/// the register writes that start and feed it are produced here and performed
/// by the caller.
#[derive(Clone, Copy, Debug)]
pub struct Iwdg {
    reload: u16,
}

/// Key register.
pub const IWDG_KEY: u32 = 0x4000_3000;
/// Prescaler register.
pub const IWDG_PR: u32 = 0x4000_3004;
/// Reload register.
pub const IWDG_RLR: u32 = 0x4000_3008;
/// Status register (update-in-progress flags in bits 0..2).
pub const IWDG_SR: u32 = 0x4000_300C;
/// Key that reloads the counter.
pub const KEY_FEED: u32 = 0xAAAA;
/// Key that unlocks the prescaler and reload registers.
pub const KEY_ACCESS: u32 = 0x5555;
/// Key that starts the watchdog.
pub const KEY_START: u32 = 0xCCCC;
/// Prescaler divide-by-256 code.
pub const PR_DIV256: u32 = 0b110;

impl Iwdg {
    /// The reload value programmed (12 bits).
    pub closed spec fn spec_reload(&self) -> u16 {
        self.reload
    }

    /// Start the watchdog with `reload`; only its low 12 bits reach the reload
    /// register.
    pub fn start(reload: u16) -> (r: Iwdg)
        ensures
            r.spec_reload() == reload % 4096,
    {
        let v = reload & 0x0FFF;
        assert(v == reload % 4096) by (bit_vector)
            requires v == reload & 0x0FFF;
        Iwdg { reload: v }
    }

    /// ~1 s window at LSI 40 kHz, /256 prescale (reload 156).
    pub fn start_1s() -> (r: Iwdg)
        ensures
            r.spec_reload() == 156,
    {
        Self::start(156)
    }

    /// The reload value programmed.
    pub fn reload(&self) -> (r: u16)
        ensures
            r == self.spec_reload(),
    {
        self.reload
    }

    /// The register writes `(address, value)` that start the watchdog, in
    /// order: enable, unlock, prescaler, reload. After them the caller waits
    /// for the status register's update flags to clear, then feeds.
    pub fn start_writes(&self) -> (w: [(u32, u32); 4])
        ensures
            w@ == seq![
                (IWDG_KEY, KEY_START),
                (IWDG_KEY, KEY_ACCESS),
                (IWDG_PR, PR_DIV256),
                (IWDG_RLR, self.spec_reload() as u32),
            ],
    {
        let w = [
            (IWDG_KEY, KEY_START),
            (IWDG_KEY, KEY_ACCESS),
            (IWDG_PR, PR_DIV256),
            (IWDG_RLR, self.reload as u32),
        ];
        assert(w@ =~= seq![
            (IWDG_KEY, KEY_START),
            (IWDG_KEY, KEY_ACCESS),
            (IWDG_PR, PR_DIV256),
            (IWDG_RLR, self.spec_reload() as u32),
        ]);
        w
    }

    /// The register write `(address, value)` that kicks the dog.
    pub fn feed(&self) -> (w: (u32, u32))
        ensures
            w == (IWDG_KEY, KEY_FEED),
    {
        (IWDG_KEY, KEY_FEED)
    }
}


/// The boot flag each management action writes before its reset: a stay
/// request and an invalidation write the stay magic `0xB007_57A4`, a
/// boot-app request clears the word to zero, and a plain reboot leaves it
/// as it is.
pub proof fn lemma_reset_flags(action: MgmtAction)
    ensures
        action == MgmtAction::StayInBoot ==> spec_reset_flag(action) == Some(0xB007_57A4u32),
        action == MgmtAction::InvalidateApp ==> spec_reset_flag(action) == Some(0xB007_57A4u32),
        action == MgmtAction::BootApp ==> spec_reset_flag(action) == Some(0u32),
        action == MgmtAction::Reboot ==> spec_reset_flag(action) is None,
{
}

} // verus!
