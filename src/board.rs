use vstd::prelude::*;

use crate::regs::CM4_IMAGE_BASE;

verus! {

/// The two cores of the device.
#[derive(Clone, Copy, PartialEq, Eq, Structural, Debug)]
pub enum CoreId {
    /// The low-power primary core, which runs the bring-up.
    Cm0,
    /// The high-performance secondary core.
    Cm4,
}

/// Clock frequency of the primary core, in hertz.
pub const CM0_FREQUENCY: u32 = 80_000_000;

/// Clock frequency of the secondary core, in hertz.
pub const CM4_FREQUENCY: u32 = 160_000_000;

/// Unlocked PLL0 readings after which the clock set-up gives up.
pub const PLL_LOCK_MAX_POLLS: u32 = 1_000_000;

pub open spec fn core_frequency(core: CoreId) -> u32 {
    match core {
        CoreId::Cm0 => CM0_FREQUENCY,
        CoreId::Cm4 => CM4_FREQUENCY,
    }
}

/// Returns the clock frequency, in hertz, that the bring-up gives `core`.
pub fn get_core_frequency(core: CoreId) -> (r: u32)
    ensures
        r == core_frequency(core),
{
    match core {
        CoreId::Cm0 => CM0_FREQUENCY,
        CoreId::Cm4 => CM4_FREQUENCY,
    }
}

/// What a core's start-up needs to know of the build: its frequency, where
/// the secondary core's image is linked, and the PLL0 polling bound.
#[derive(Clone, Copy, PartialEq, Eq, Structural, Debug)]
pub struct BootConfig {
    pub core: CoreId,
    pub core_frequency: u32,
    pub cm4_image_base: u32,
    pub pll_max_polls: u32,
}

impl BootConfig {
    /// The configuration of `core` under the device's memory layout.
    pub fn for_core(core: CoreId) -> (r: BootConfig)
        ensures
            r.core == core,
            r.core_frequency == core_frequency(core),
            r.cm4_image_base == CM4_IMAGE_BASE,
            r.pll_max_polls == PLL_LOCK_MAX_POLLS,
    {
        BootConfig {
            core,
            core_frequency: get_core_frequency(core),
            cm4_image_base: CM4_IMAGE_BASE,
            pll_max_polls: PLL_LOCK_MAX_POLLS,
        }
    }
}

/// The vector table base register's value for a core whose reset vector
/// entry is at `reset_vector_addr`: the table starts one word (the initial
/// stack pointer) before it.
pub fn vector_table_base(reset_vector_addr: u32) -> (r: u32)
    requires
        reset_vector_addr >= 4,
    ensures
        r == reset_vector_addr - 4,
{
    reset_vector_addr - 4
}

} // verus!
