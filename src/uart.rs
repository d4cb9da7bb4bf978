use vstd::prelude::*;

verus! {

/// Integer and fractional (in 32nds) parts of the serial block's 24.5
/// clock divider; the divider divides by `int24_div + 1 + frac5_div / 32`.
#[derive(Clone, Copy, PartialEq, Eq, Structural, Debug)]
pub struct ScbDivider {
    pub int24_div: u32,
    pub frac5_div: u32,
}

/// Largest integer part the 24-bit field holds.
pub const INT24_MAX: u32 = 0x00ff_ffff;

/// The divider in 32nds that brings `clk_hz` to `baud * oversample`,
/// rounded to the nearest 32nd (halves up).
pub open spec fn divider_32nds(clk_hz: u32, baud: u32, oversample: u32) -> int {
    let q = baud as int * oversample as int;
    (clk_hz as int * 32 + q / 2) / q
}

/// Computes the serial block's clock divider for `baud` bits per second at
/// `oversample` clocks per bit from a peripheral clock of `clk_hz`: the
/// divider closest to `clk_hz / (baud * oversample)`, in 32nds. `None` when
/// `baud` or `oversample` is zero, or when the divider is below 1 or its
/// integer part does not fit the 24-bit field.
pub fn config_scb_clk(clk_hz: u32, baud: u32, oversample: u32) -> (r: Option<ScbDivider>)
    ensures
        (baud == 0 || oversample == 0) ==> r is None,
        baud > 0 && oversample > 0 ==> ({
            let d = divider_32nds(clk_hz, baud, oversample);
            &&& r is Some <==> (32 <= d && d / 32 - 1 <= INT24_MAX)
            &&& r is Some ==> r.unwrap().int24_div == d / 32 - 1 && r.unwrap().frac5_div == d % 32
        }),
{
    if baud == 0 || oversample == 0 {
        return None;
    }
    proof {
        let (b, o) = (baud as int, oversample as int);
        assert(0 < b * o <= 0xffff_ffff * 0xffff_ffff) by (nonlinear_arith)
            requires
                0 < b <= 0xffff_ffff,
                0 < o <= 0xffff_ffff,
        ;
    }
    let q: u64 = (baud as u64) * (oversample as u64);
    let d: u64 = ((clk_hz as u64) * 32 + q / 2) / q;
    if d < 32 || d / 32 - 1 > INT24_MAX as u64 {
        return None;
    }
    Some(ScbDivider { int24_div: (d / 32 - 1) as u32, frac5_div: (d % 32) as u32 })
}

/// Whether the transmit FIFO is empty, from its status: no byte in the
/// shift register (`sr_valid` clear) and no byte queued (`used` zero).
pub fn is_uart_tx_fifo_empty(sr_valid: bool, used: u32) -> (r: bool)
    ensures
        r == (!sr_valid && used == 0),
{
    !sr_valid && used == 0
}

} // verus!
