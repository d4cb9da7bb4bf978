use vstd::prelude::*;

use crate::error::BringupError;
use crate::regs::{reg_write, wr, Field, Reg, RegWrite, CM4_POWER_ON};

verus! {

/// The secondary core's power state as seen by the primary core. Powering
/// on is one-way: nothing here turns a powered core back to held.
pub struct CoreBringup {
    powered: bool,
}

/// The hand-off writes: the vector table base, then the power-on word.
pub open spec fn handoff_seq(image_base: u32) -> Seq<RegWrite> {
    seq![
        wr(Reg::Cm4VectorTableBase, Field::Word, image_base),
        wr(Reg::Cm4PwrCtl, Field::Word, CM4_POWER_ON),
    ]
}

/// Every power-on write of `t` is preceded by a write of `image_base` to
/// the vector table base register.
pub open spec fn vector_base_before_power_on(t: Seq<RegWrite>, image_base: u32) -> bool {
    forall|j: int|
        0 <= j < t.len() && (#[trigger] t[j]).reg == Reg::Cm4PwrCtl ==> exists|i: int|
            0 <= i < j && #[trigger] t[i] == wr(Reg::Cm4VectorTableBase, Field::Word, image_base)
}

/// No write of `t` touches the power control register.
pub open spec fn no_power_write(t: Seq<RegWrite>) -> bool {
    forall|i: int| 0 <= i < t.len() ==> (#[trigger] t[i]).reg != Reg::Cm4PwrCtl
}

/// After any writes that leave the power control register alone, the
/// hand-off writes the vector table base strictly before it powers the
/// secondary core on.
pub proof fn lemma_handoff_order(pre: Seq<RegWrite>, image_base: u32)
    requires
        no_power_write(pre),
    ensures
        vector_base_before_power_on(pre + handoff_seq(image_base), image_base),
{
    let t = pre + handoff_seq(image_base);
    assert forall|j: int| 0 <= j < t.len() && (#[trigger] t[j]).reg == Reg::Cm4PwrCtl implies exists|i: int|
        0 <= i < j && #[trigger] t[i] == wr(Reg::Cm4VectorTableBase, Field::Word, image_base) by {
        if j < pre.len() {
            assert(t[j] == pre[j]);
        } else {
            assert(j == pre.len() + 1) by {
                if j == pre.len() {
                    assert(t[j] == handoff_seq(image_base)[0]);
                }
            }
            assert(t[j - 1] == handoff_seq(image_base)[0]);
        }
    }
}

impl CoreBringup {
    /// Whether the power-on write was issued.
    pub closed spec fn powered(&self) -> bool {
        self.powered
    }

    /// A secondary core held in reset.
    pub fn new() -> (r: CoreBringup)
        ensures
            !r.powered(),
    {
        CoreBringup { powered: false }
    }

    /// Whether the power-on write was issued.
    pub fn is_powered(&self) -> (r: bool)
        ensures
            r == self.powered(),
    {
        self.powered
    }
}

/// Points the secondary core at its vector table at `image_base`, then
/// powers it on, by appending both writes to `trace`. A second call is
/// refused and writes nothing.
pub fn enable_cm4(core: &mut CoreBringup, image_base: u32, trace: &mut Vec<RegWrite>) -> (r: Result<
    (),
    BringupError,
>)
    ensures
        r is Ok <==> !old(core).powered(),
        r is Ok ==> final(trace)@ == old(trace)@ + handoff_seq(image_base),
        r is Err ==> r == Err::<(), BringupError>(BringupError::CoreAlreadyPowered)
            && final(trace)@ == old(trace)@,
        final(core).powered(),
{
    if core.powered {
        return Err(BringupError::CoreAlreadyPowered);
    }
    trace.push(reg_write(Reg::Cm4VectorTableBase, Field::Word, image_base));
    trace.push(reg_write(Reg::Cm4PwrCtl, Field::Word, CM4_POWER_ON));
    core.powered = true;
    assert(final(trace)@ =~= old(trace)@ + handoff_seq(image_base));
    Ok(())
}

} // verus!
