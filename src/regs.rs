use vstd::prelude::*;

verus! {

/// The memory-mapped registers that the bring-up sequence touches.
#[derive(Clone, Copy, PartialEq, Eq, Structural, Debug)]
pub enum Reg {
    /// Watchdog lock register (two-step unlock, one-step lock).
    WdtLock,
    /// Watchdog control register; gated by the watchdog lock.
    WdtCtl,
    /// ROM wait-state control.
    RomCtl,
    /// RAM0 wait-state control.
    Ram0Ctl0,
    /// RAM1 wait-state control.
    Ram1Ctl0,
    /// Flash wait-state control.
    FlashCtl,
    /// Low-frequency clock source selection.
    ClkSelect,
    /// Clock divider of the high-performance core.
    Cm4ClockCtl,
    /// Peripheral and slow clock dividers of the low-power core.
    Cm0ClockCtl,
    /// Path multiplexer of clock path 1 (feeds PLL0).
    ClkPathSelect1,
    /// Path multiplexer of clock path 2.
    ClkPathSelect2,
    /// PLL0 configuration word.
    ClkPllConfig0,
    /// High-frequency root clock 0 selection and enable.
    ClkRootSelect0,
    /// High-frequency root clock 1 selection and enable.
    ClkRootSelect1,
    /// Low-power internal oscillator configuration; gated by the watchdog lock.
    ClkIlo0Config,
    /// Vector table base of the secondary core.
    Cm4VectorTableBase,
    /// Power control of the secondary core.
    Cm4PwrCtl,
}

/// The part of a register that a write sets; `Word` is the whole register.
#[derive(Clone, Copy, PartialEq, Eq, Structural, Debug)]
pub enum Field {
    Word,
    WdtLock,
    Enable,
    SlowWs,
    FastWs,
    MainWs,
    LfclkSel,
    FastIntDiv,
    PathMux,
    Ilo0Backup,
}

/// One register write: `value` goes into `field` of `reg`, the other fields
/// take their reset values.
#[derive(Clone, Copy, PartialEq, Eq, Structural, Debug)]
pub struct RegWrite {
    pub reg: Reg,
    pub field: Field,
    pub value: u32,
}

/// First magic value of the watchdog unlock sequence.
pub const WDT_UNLOCK_FIRST: u32 = 1;

/// Second magic value of the watchdog unlock sequence.
pub const WDT_UNLOCK_SECOND: u32 = 2;

/// Magic value that locks the watchdog.
pub const WDT_LOCK_VALUE: u32 = 3;

/// Power-control word that powers the secondary core on.
pub const CM4_POWER_ON: u32 = 0x05fa_0003;

/// Flash address at which the secondary core's image is linked.
pub const CM4_IMAGE_BASE: u32 = 0x1000_8000;

/// Peripheral and slow dividers of the low-power core: peripheral clock
/// divided by 2, slow clock equal to the peripheral clock.
pub const CM0_CLOCK_DIVIDERS: u32 = 0x0100_0000;

/// PLL0: feedback divider 1, reference divider 40, output divider 2, enabled.
pub const PLL0_CONFIG: u32 = 0x8002_0128;

/// Root clock 0: enabled, sourced from PLL0, not divided.
pub const ROOT0_SELECT: u32 = 0x8000_0001;

/// Root clock 1: enabled, sourced from PLL0, divided by 2.
pub const ROOT1_SELECT: u32 = 0x8000_0011;

/// Enable bit of a root clock selection word.
pub const ROOT_ENABLE_BIT: u32 = 0x8000_0000;

/// Builds a register write.
pub open spec fn wr(reg: Reg, field: Field, value: u32) -> RegWrite {
    RegWrite { reg, field, value }
}

/// Builds a register write.
pub fn reg_write(reg: Reg, field: Field, value: u32) -> (r: RegWrite)
    ensures
        r == wr(reg, field, value),
{
    RegWrite { reg, field, value }
}

/// Registers that hold memory wait-states.
pub open spec fn is_wait_state_reg(r: Reg) -> bool {
    r == Reg::RomCtl || r == Reg::Ram0Ctl0 || r == Reg::Ram1Ctl0 || r == Reg::FlashCtl
}

/// Registers whose write can raise the effective clock frequency.
pub open spec fn raises_frequency(r: Reg) -> bool {
    r == Reg::Cm4ClockCtl || r == Reg::Cm0ClockCtl || r == Reg::ClkPllConfig0
        || r == Reg::ClkRootSelect0 || r == Reg::ClkRootSelect1
}

/// Registers that can be written only while the watchdog is unlocked.
pub open spec fn is_wdt_gated(r: Reg) -> bool {
    r == Reg::WdtCtl || r == Reg::ClkIlo0Config
}

} // verus!
