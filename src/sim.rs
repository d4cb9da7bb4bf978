use vstd::prelude::*;

use crate::clock::{
    after_lock_seq, before_lock_seq, lemma_clock_tree_leaves_wdt_locked, clock_steps_left, clock_view_ok, clock_tree_seq, read_limit, Action,
    ClockInit, ClockPhase, Event,
};
use crate::board::BootConfig;
use crate::clock::lemma_clock_tree_no_power_write;
use crate::error::BringupError;
use crate::handoff::{
    enable_cm4, handoff_seq, lemma_handoff_order, no_power_write, vector_base_before_power_on,
    CoreBringup,
};
use crate::regs::{Reg, RegWrite};
use crate::watchdog::{lemma_wdt_after_concat, lemma_wdt_untouched, wdt_after, WdtLockState};

verus! {

/// A simulated register file: it records every write in order and answers
/// PLL0 lock-flag reads from a fixed model.
pub struct SimChip {
    /// Every write, in the order it was issued.
    pub trace: Vec<RegWrite>,
    /// The lock flag reads set from this reading on (counting from 0);
    /// `None` models a PLL that never locks.
    pub pll_lock_after: Option<u64>,
    /// Number of lock-flag reads so far.
    pub status_reads: u64,
}

impl SimChip {
    /// Whether the lock-flag reading number `k` reads set.
    pub open spec fn pll_locked_at(&self, k: int) -> bool {
        match self.pll_lock_after {
            Some(n) => k >= n,
            None => false,
        }
    }

    /// Registers at their reset defaults, with no write recorded.
    pub fn new(pll_lock_after: Option<u64>) -> (r: SimChip)
        ensures
            r.trace@.len() == 0,
            r.pll_lock_after == pll_lock_after,
            r.status_reads == 0,
    {
        SimChip { trace: Vec::new(), pll_lock_after, status_reads: 0 }
    }

    /// Reads the PLL0 lock flag.
    pub fn read_pll_status(&mut self) -> (r: bool)
        requires
            old(self).status_reads < u64::MAX,
        ensures
            r == old(self).pll_locked_at(old(self).status_reads as int),
            final(self).status_reads == old(self).status_reads + 1,
            final(self).trace@ == old(self).trace@,
            final(self).pll_lock_after == old(self).pll_lock_after,
    {
        let r = match self.pll_lock_after {
            Some(n) => self.status_reads >= n,
            None => false,
        };
        self.status_reads = self.status_reads + 1;
        r
    }

    /// Whether a lock-flag read returned set so far.
    pub fn pll_locked(&self) -> (r: bool)
        requires
            self.status_reads > 0,
        ensures
            r == self.pll_locked_at(self.status_reads - 1),
    {
        match self.pll_lock_after {
            Some(n) => self.status_reads - 1 >= n,
            None => false,
        }
    }
}

/// Watchdog lock state after `trace`, from the reset default (locked).
pub fn wdt_lock_state(trace: &Vec<RegWrite>) -> (r: WdtLockState)
    ensures
        r == wdt_after(WdtLockState::Locked, trace@),
{
    let mut s = WdtLockState::Locked;
    let mut i: usize = 0;
    while i < trace.len()
        invariant
            i <= trace@.len(),
            s == wdt_after(WdtLockState::Locked, trace@.take(i as int)),
        decreases trace@.len() - i,
    {
        let w = trace[i];
        assert(trace@.take(i + 1).drop_last() =~= trace@.take(i as int));
        s = if w.reg != Reg::WdtLock {
            s
        } else if w.value == crate::regs::WDT_LOCK_VALUE {
            WdtLockState::Locked
        } else if w.value == crate::regs::WDT_UNLOCK_FIRST {
            if s == WdtLockState::Unlocked {
                WdtLockState::Unlocked
            } else {
                WdtLockState::HalfUnlocked
            }
        } else if w.value == crate::regs::WDT_UNLOCK_SECOND {
            if s == WdtLockState::HalfUnlocked {
                WdtLockState::Unlocked
            } else {
                s
            }
        } else {
            s
        };
        i = i + 1;
    }
    assert(trace@.take(i as int) =~= trace@);
    s
}

proof fn lemma_trace_ends_locked(pre: Seq<RegWrite>, t: Seq<RegWrite>)
    requires
        t == clock_tree_seq() || t == before_lock_seq(),
    ensures
        forall|s: WdtLockState| wdt_after(s, pre + t) == WdtLockState::Locked,
{
    assert forall|s: WdtLockState| wdt_after(s, pre + t) == WdtLockState::Locked by {
        lemma_wdt_after_concat(s, pre, t);
        lemma_clock_tree_leaves_wdt_locked(wdt_after(s, pre));
    }
}

/// Runs the clock tree set-up against the simulated chip, with PLL0 given
/// `max_polls` lock-flag readings (at least one). It ends in every case:
/// with `Ok` and the whole set-up written when a reading within the bound
/// reads set, else with `ClockLockTimeout` after exactly the bound's number
/// of readings and only the writes that precede the poll.
pub fn run_clock_init(chip: &mut SimChip, max_polls: u32) -> (r: Result<(), BringupError>)
    requires
        old(chip).status_reads as int + read_limit(max_polls) <= u64::MAX,
    ensures
        final(chip).pll_lock_after == old(chip).pll_lock_after,
        r is Ok <==> old(chip).pll_locked_at(
            old(chip).status_reads + read_limit(max_polls) - 1,
        ),
        r is Ok ==> final(chip).trace@ == old(chip).trace@ + clock_tree_seq()
            && final(chip).status_reads <= old(chip).status_reads + read_limit(max_polls),
        r is Err ==> r == Err::<(), BringupError>(BringupError::ClockLockTimeout)
            && final(chip).trace@ == old(chip).trace@ + before_lock_seq()
            && final(chip).status_reads == old(chip).status_reads + read_limit(max_polls),
        forall|s: WdtLockState| wdt_after(s, final(chip).trace@) == WdtLockState::Locked,
{
    let ghost t0 = chip.trace@;
    let ghost r0 = chip.status_reads as int;
    let ghost c0 = *chip;
    let ghost lim = read_limit(max_polls);
    let mut sm = ClockInit::new(max_polls);
    let mut ev = Event::Ready;
    loop
        invariant
            sm.wf(),
            clock_view_ok(sm@),
            sm@.max_polls == max_polls,
            t0 == old(chip).trace@,
            r0 == old(chip).status_reads,
            c0.pll_lock_after == old(chip).pll_lock_after,
            lim == read_limit(max_polls),
            r0 + lim <= u64::MAX,
            chip.pll_lock_after == c0.pll_lock_after,
            sm@.phase == ClockPhase::PreLock || sm@.phase == ClockPhase::Polling || sm@.phase
                == ClockPhase::PostLock,
            sm@.phase == ClockPhase::PreLock ==> chip.trace@ == t0 + before_lock_seq().take(
                sm@.cursor as int,
            ) && chip.status_reads == r0 && ev == Event::Ready,
            sm@.phase == ClockPhase::Polling ==> chip.trace@ == t0 + before_lock_seq()
                && chip.status_reads == r0 + sm@.polls + 1 && ev == Event::PllStatus(
                c0.pll_locked_at(r0 + sm@.polls),
            ) && (sm@.polls > 0 ==> !c0.pll_locked_at(r0 + sm@.polls - 1)),
            sm@.phase == ClockPhase::PostLock ==> chip.trace@ == t0 + before_lock_seq()
                + after_lock_seq().take(sm@.cursor as int) && c0.pll_locked_at(r0 + lim - 1)
                && chip.status_reads <= r0 + lim && ev == Event::Ready,
        decreases clock_steps_left(sm@),
    {
        let ghost before_step = sm@;
        let a = sm.step(ev);
        match a {
            Action::Write(w) => {
                chip.trace.push(w);
                ev = Event::Ready;
                proof {
                    let b = before_lock_seq();
                    let af = after_lock_seq();
                    let k = before_step.cursor as int;
                    if before_step.phase == ClockPhase::PreLock {
                        assert(b.take(k + 1) =~= b.take(k).push(w));
                    } else if before_step.phase == ClockPhase::Polling {
                        assert(af.take(1) =~= seq![w]);
                    } else {
                        assert(af.take(k + 1) =~= af.take(k).push(w));
                    }
                }
            },
            Action::ReadPllStatus => {
                proof {
                    if before_step.phase == ClockPhase::PreLock {
                        assert(before_lock_seq().take(before_lock_seq().len() as int) =~= before_lock_seq());
                    }
                }
                let b = chip.read_pll_status();
                ev = Event::PllStatus(b);
            },
            Action::Finished => {
                assert(after_lock_seq().take(after_lock_seq().len() as int) =~= after_lock_seq());
                assert(chip.trace@ =~= t0 + clock_tree_seq());
                proof {
                    lemma_trace_ends_locked(t0, clock_tree_seq());
                }
                return Ok(());
            },
            Action::Fault(e) => {
                proof {
                    lemma_trace_ends_locked(t0, before_lock_seq());
                }
                return Err(e);
            },
        }
    }
}

} // verus!

verus! {

/// The primary core's start-up against the simulated chip: the clock tree
/// set-up, then the secondary core's hand-off to `cfg.cm4_image_base`. It
/// runs at most once: when the secondary core is already powered it writes
/// nothing and reports `CoreAlreadyPowered`. When PLL0 does not lock the
/// hand-off is not attempted.
pub fn primary_bringup(chip: &mut SimChip, core: &mut CoreBringup, cfg: &BootConfig) -> (r: Result<
    (),
    BringupError,
>)
    requires
        old(chip).status_reads as int + read_limit(cfg.pll_max_polls) <= u64::MAX,
    ensures
        final(chip).pll_lock_after == old(chip).pll_lock_after,
        old(core).powered() ==> r == Err::<(), BringupError>(BringupError::CoreAlreadyPowered)
            && *final(chip) == *old(chip) && final(core).powered(),
        !old(core).powered() && old(chip).pll_locked_at(
            old(chip).status_reads + read_limit(cfg.pll_max_polls) - 1,
        ) ==> r is Ok && final(chip).trace@ == old(chip).trace@ + clock_tree_seq() + handoff_seq(
            cfg.cm4_image_base,
        ) && final(core).powered(),
        !old(core).powered() && !old(chip).pll_locked_at(
            old(chip).status_reads + read_limit(cfg.pll_max_polls) - 1,
        ) ==> r == Err::<(), BringupError>(BringupError::ClockLockTimeout) && final(chip).trace@
            == old(chip).trace@ + before_lock_seq() && !final(core).powered(),
        !old(core).powered() ==> forall|s: WdtLockState|
            wdt_after(s, final(chip).trace@) == WdtLockState::Locked,
        no_power_write(old(chip).trace@) ==> vector_base_before_power_on(
            final(chip).trace@,
            cfg.cm4_image_base,
        ),
{
    if core.is_powered() {
        return Err(BringupError::CoreAlreadyPowered);
    }
    let ghost t0 = chip.trace@;
    match run_clock_init(chip, cfg.pll_max_polls) {
        Ok(()) => {},
        Err(e) => {
            proof {
                lemma_no_power_write_concat(t0, before_lock_seq());
            }
            return Err(e);
        },
    }
    let ghost t1 = chip.trace@;
    let r = enable_cm4(core, cfg.cm4_image_base, &mut chip.trace);
    proof {
        assert forall|s: WdtLockState| wdt_after(s, chip.trace@) == WdtLockState::Locked by {
            lemma_wdt_after_concat(s, t1, handoff_seq(cfg.cm4_image_base));
            lemma_wdt_untouched(wdt_after(s, t1), handoff_seq(cfg.cm4_image_base));
        }
        if no_power_write(t0) {
            lemma_no_power_write_concat(t0, clock_tree_seq());
            lemma_handoff_order(t1, cfg.cm4_image_base);
        }
    }
    r
}

proof fn lemma_no_power_write_concat(pre: Seq<RegWrite>, t: Seq<RegWrite>)
    requires
        t == clock_tree_seq() || t == before_lock_seq(),
    ensures
        no_power_write(pre) ==> no_power_write(pre + t),
{
    lemma_clock_tree_no_power_write();
    let c = clock_tree_seq();
    assert(c.take(before_lock_seq().len() as int) =~= before_lock_seq());
    if no_power_write(pre) {
        assert forall|i: int| 0 <= i < (pre + t).len() implies (#[trigger] (pre + t)[i]).reg
            != Reg::Cm4PwrCtl by {
            if i >= pre.len() {
                assert((pre + t)[i] == t[i - pre.len()]);
                assert(t[i - pre.len()] == c[i - pre.len()]);
            }
        }
    }
}

} // verus!
