use vstd::prelude::*;

use crate::error::BringupError;
use crate::regs::{
    is_wait_state_reg, is_wdt_gated, raises_frequency, reg_write, wr, Field, Reg, RegWrite,
    CM0_CLOCK_DIVIDERS, PLL0_CONFIG, ROOT0_SELECT, ROOT1_SELECT,
};
use crate::watchdog::{
    gated_writes_unlocked, guarded_seq, leaves_lock_alone, lemma_gated_concat, lemma_guarded_seq,
    lemma_wdt_after_concat, lemma_wdt_untouched, wdt_after, with_wdt_unlocked, WdtLockState,
};

verus! {

/// Body of the first guarded operation: the watchdog timer is disabled.
pub open spec fn disable_wdt_body() -> Seq<RegWrite> {
    seq![wr(Reg::WdtCtl, Field::Enable, 0)]
}

/// The conservative wait-state profile, valid at the reset frequency.
pub open spec fn wait_state_seq() -> Seq<RegWrite> {
    seq![
        wr(Reg::RomCtl, Field::SlowWs, 1),
        wr(Reg::RomCtl, Field::FastWs, 0),
        wr(Reg::Ram0Ctl0, Field::SlowWs, 1),
        wr(Reg::Ram0Ctl0, Field::FastWs, 0),
        wr(Reg::Ram1Ctl0, Field::SlowWs, 1),
        wr(Reg::Ram1Ctl0, Field::FastWs, 0),
        wr(Reg::FlashCtl, Field::MainWs, 1),
    ]
}

/// Clock source, per-core dividers and PLL0 set-up, up to the lock poll.
pub open spec fn pll_setup_seq() -> Seq<RegWrite> {
    seq![
        wr(Reg::ClkSelect, Field::LfclkSel, 0),
        wr(Reg::Cm4ClockCtl, Field::FastIntDiv, 0),
        wr(Reg::Cm0ClockCtl, Field::Word, CM0_CLOCK_DIVIDERS),
        wr(Reg::ClkPathSelect1, Field::PathMux, 0),
        wr(Reg::ClkPllConfig0, Field::Word, PLL0_CONFIG),
    ]
}

/// Root clocks, once PLL0 has locked.
pub open spec fn root_clock_seq() -> Seq<RegWrite> {
    seq![
        wr(Reg::ClkPathSelect2, Field::PathMux, 0),
        wr(Reg::ClkRootSelect0, Field::Word, ROOT0_SELECT),
        wr(Reg::ClkRootSelect1, Field::Word, ROOT1_SELECT),
    ]
}

/// Body of the second guarded operation: the low-power oscillator is
/// enabled with its backup flag.
pub open spec fn ilo_body() -> Seq<RegWrite> {
    seq![wr(Reg::ClkIlo0Config, Field::Enable, 1), wr(Reg::ClkIlo0Config, Field::Ilo0Backup, 1)]
}

/// Writes of the clock tree set-up before the PLL0 lock poll.
pub open spec fn before_lock_seq() -> Seq<RegWrite> {
    guarded_seq(disable_wdt_body()) + wait_state_seq() + pll_setup_seq()
}

/// Writes of the clock tree set-up after PLL0 has locked.
pub open spec fn after_lock_seq() -> Seq<RegWrite> {
    root_clock_seq() + guarded_seq(ilo_body())
}

/// The clock tree set-up, split at the PLL0 lock poll.
pub struct ClockPlan {
    pub before_lock: Vec<RegWrite>,
    pub after_lock: Vec<RegWrite>,
}

fn push_wait_states(t: &mut Vec<RegWrite>)
    ensures
        final(t)@ == old(t)@ + wait_state_seq(),
{
    t.push(reg_write(Reg::RomCtl, Field::SlowWs, 1));
    t.push(reg_write(Reg::RomCtl, Field::FastWs, 0));
    t.push(reg_write(Reg::Ram0Ctl0, Field::SlowWs, 1));
    t.push(reg_write(Reg::Ram0Ctl0, Field::FastWs, 0));
    t.push(reg_write(Reg::Ram1Ctl0, Field::SlowWs, 1));
    t.push(reg_write(Reg::Ram1Ctl0, Field::FastWs, 0));
    t.push(reg_write(Reg::FlashCtl, Field::MainWs, 1));
    assert(final(t)@ =~= old(t)@ + wait_state_seq());
}

fn push_pll_setup(t: &mut Vec<RegWrite>)
    ensures
        final(t)@ == old(t)@ + pll_setup_seq(),
{
    t.push(reg_write(Reg::ClkSelect, Field::LfclkSel, 0));
    t.push(reg_write(Reg::Cm4ClockCtl, Field::FastIntDiv, 0));
    t.push(reg_write(Reg::Cm0ClockCtl, Field::Word, CM0_CLOCK_DIVIDERS));
    t.push(reg_write(Reg::ClkPathSelect1, Field::PathMux, 0));
    t.push(reg_write(Reg::ClkPllConfig0, Field::Word, PLL0_CONFIG));
    assert(final(t)@ =~= old(t)@ + pll_setup_seq());
}

fn push_root_clocks(t: &mut Vec<RegWrite>)
    ensures
        final(t)@ == old(t)@ + root_clock_seq(),
{
    t.push(reg_write(Reg::ClkPathSelect2, Field::PathMux, 0));
    t.push(reg_write(Reg::ClkRootSelect0, Field::Word, ROOT0_SELECT));
    t.push(reg_write(Reg::ClkRootSelect1, Field::Word, ROOT1_SELECT));
    assert(final(t)@ =~= old(t)@ + root_clock_seq());
}

/// Builds the clock tree set-up: the watchdog is disabled under the lock
/// guard, wait-states get their conservative profile, the low-frequency
/// source and per-core dividers are set, PLL0 is configured; after the lock
/// poll, the root clocks are enabled from PLL0 and the low-power oscillator
/// is enabled under the lock guard.
pub fn config_sys_clk() -> (r: ClockPlan)
    ensures
        r.before_lock@ == before_lock_seq(),
        r.after_lock@ == after_lock_seq(),
{
    let mut before: Vec<RegWrite> = Vec::new();
    let mut body: Vec<RegWrite> = Vec::new();
    body.push(reg_write(Reg::WdtCtl, Field::Enable, 0));
    assert(body@ =~= disable_wdt_body());
    let _ = with_wdt_unlocked(&mut before, &body, None);
    assert(before@ =~= guarded_seq(disable_wdt_body())) by {
        assert(body@.take(body@.len() as int) =~= body@);
    }
    push_wait_states(&mut before);
    push_pll_setup(&mut before);
    assert(before@ =~= before_lock_seq());

    let mut after: Vec<RegWrite> = Vec::new();
    push_root_clocks(&mut after);
    let mut ilo: Vec<RegWrite> = Vec::new();
    ilo.push(reg_write(Reg::ClkIlo0Config, Field::Enable, 1));
    ilo.push(reg_write(Reg::ClkIlo0Config, Field::Ilo0Backup, 1));
    assert(ilo@ =~= ilo_body());
    let _ = with_wdt_unlocked(&mut after, &ilo, None);
    assert(ilo@.take(ilo@.len() as int) =~= ilo@);
    assert(after@ =~= after_lock_seq());
    ClockPlan { before_lock: before, after_lock: after }
}

} // verus!

verus! {

/// The full clock tree set-up, when PLL0 locks.
pub open spec fn clock_tree_seq() -> Seq<RegWrite> {
    before_lock_seq() + after_lock_seq()
}

proof fn lemma_bodies_leave_lock_alone()
    ensures
        leaves_lock_alone(disable_wdt_body()),
        leaves_lock_alone(ilo_body()),
        leaves_lock_alone(wait_state_seq() + pll_setup_seq()),
        leaves_lock_alone(root_clock_seq()),
{
    let w = wait_state_seq() + pll_setup_seq();
    assert forall|i: int| 0 <= i < w.len() implies (#[trigger] w[i]).reg != Reg::WdtLock by {
        assert(0 <= i < 7 || 7 <= i < 12);
        if i < 7 {
            assert(w[i] == wait_state_seq()[i]);
        } else {
            assert(w[i] == pll_setup_seq()[i - 7]);
        }
    }
    let r = root_clock_seq();
    assert forall|i: int| 0 <= i < r.len() implies (#[trigger] r[i]).reg != Reg::WdtLock by {
        assert(i == 0 || i == 1 || i == 2);
    }
    let b = ilo_body();
    assert forall|i: int| 0 <= i < b.len() implies (#[trigger] b[i]).reg != Reg::WdtLock by {
        assert(i == 0 || i == 1);
    }
}

/// Whatever the lock state before it, the clock tree set-up leaves the
/// watchdog locked: when PLL0 locks and the whole set-up runs, and when the
/// lock poll times out after the writes that precede it.
pub proof fn lemma_clock_tree_leaves_wdt_locked(s: WdtLockState)
    ensures
        wdt_after(s, clock_tree_seq()) == WdtLockState::Locked,
        wdt_after(s, before_lock_seq()) == WdtLockState::Locked,
{
    lemma_bodies_leave_lock_alone();
    let g1 = guarded_seq(disable_wdt_body());
    let mid = wait_state_seq() + pll_setup_seq();
    lemma_guarded_seq(s, disable_wdt_body());
    assert(before_lock_seq() =~= g1 + mid);
    lemma_wdt_after_concat(s, g1, mid);
    lemma_wdt_untouched(WdtLockState::Locked, mid);
    let g2 = guarded_seq(ilo_body());
    let t = before_lock_seq() + root_clock_seq();
    lemma_wdt_after_concat(s, before_lock_seq(), root_clock_seq());
    lemma_wdt_untouched(WdtLockState::Locked, root_clock_seq());
    assert(clock_tree_seq() =~= t + g2);
    lemma_wdt_after_concat(s, t, g2);
    lemma_guarded_seq(wdt_after(s, t), ilo_body());
}

/// Every wait-state write of the clock tree set-up comes before every write
/// that can raise the clock frequency.
pub proof fn lemma_wait_states_before_frequency_increase()
    ensures
        forall|i: int, j: int|
            0 <= i < clock_tree_seq().len() && 0 <= j < clock_tree_seq().len()
                && is_wait_state_reg(#[trigger] clock_tree_seq()[i].reg) && raises_frequency(
                #[trigger] clock_tree_seq()[j].reg,
            ) ==> i < j,
{
    let t = clock_tree_seq();
    let g1 = guarded_seq(disable_wdt_body());
    let g2 = guarded_seq(ilo_body());
    assert(t =~= g1 + wait_state_seq() + pll_setup_seq() + root_clock_seq() + g2);
    assert(g1.len() == 4);
    assert(g2.len() == 5);
    assert forall|k: int| 0 <= k < 11 implies !raises_frequency(#[trigger] t[k].reg) by {
        if k < 4 {
            assert(t[k] == g1[k]);
            assert(k == 0 || k == 1 || k == 2 || k == 3);
            assert(g1 =~= seq![
                wr(Reg::WdtLock, Field::WdtLock, 1),
                wr(Reg::WdtLock, Field::WdtLock, 2),
                wr(Reg::WdtCtl, Field::Enable, 0),
                wr(Reg::WdtLock, Field::WdtLock, 3),
            ]);
        } else {
            assert(t[k] == wait_state_seq()[k - 4]);
        }
    }
    assert forall|k: int| 11 <= k < t.len() implies !is_wait_state_reg(#[trigger] t[k].reg) by {
        if k < 16 {
            assert(t[k] == pll_setup_seq()[k - 11]);
        } else if k < 19 {
            assert(t[k] == root_clock_seq()[k - 16]);
        } else {
            assert(t[k] == g2[k - 19]);
            assert(g2 =~= seq![
                wr(Reg::WdtLock, Field::WdtLock, 1),
                wr(Reg::WdtLock, Field::WdtLock, 2),
                wr(Reg::ClkIlo0Config, Field::Enable, 1),
                wr(Reg::ClkIlo0Config, Field::Ilo0Backup, 1),
                wr(Reg::WdtLock, Field::WdtLock, 3),
            ]);
        }
    }
}

} // verus!

verus! {

/// Where the clock tree set-up stands.
#[derive(Clone, Copy, PartialEq, Eq, Structural, Debug)]
pub enum ClockPhase {
    /// Issuing the writes that precede the PLL0 lock poll.
    PreLock,
    /// Waiting for PLL0 to report lock.
    Polling,
    /// Issuing the writes that follow the lock.
    PostLock,
    /// Every write was issued.
    Finished,
    /// PLL0 did not lock within the bound.
    TimedOut,
}

/// What the caller reports back to the set-up before each step.
#[derive(Clone, Copy, PartialEq, Eq, Structural, Debug)]
pub enum Event {
    /// The previous action was carried out (or nothing happened yet).
    Ready,
    /// The PLL0 lock flag, as read for a `ReadPllStatus` action.
    PllStatus(bool),
}

/// What the set-up asks its caller to do next.
#[derive(Clone, Copy, PartialEq, Eq, Structural, Debug)]
pub enum Action {
    /// Perform this register write.
    Write(RegWrite),
    /// Read the PLL0 lock flag and report it.
    ReadPllStatus,
    /// The clock tree is configured.
    Finished,
    /// The set-up failed; halt in an observable state.
    Fault(BringupError),
}

/// Number of unlocked PLL0 readings after which the set-up gives up.
pub open spec fn read_limit(max_polls: u32) -> nat {
    if max_polls == 0 {
        1
    } else {
        max_polls as nat
    }
}

/// The clock tree set-up as a state machine: the caller performs each
/// action it returns and reports back with the next event.
pub struct ClockInit {
    plan: ClockPlan,
    phase: ClockPhase,
    cursor: usize,
    polls: u32,
    max_polls: u32,
}

pub struct ClockInitView {
    pub phase: ClockPhase,
    pub cursor: nat,
    pub polls: nat,
    pub max_polls: u32,
}

impl View for ClockInit {
    type V = ClockInitView;

    closed spec fn view(&self) -> ClockInitView {
        ClockInitView {
            phase: self.phase,
            cursor: self.cursor as nat,
            polls: self.polls as nat,
            max_polls: self.max_polls,
        }
    }
}

/// Steps left before the set-up ends, whatever PLL0 reports.
pub open spec fn clock_steps_left(v: ClockInitView) -> nat {
    let b = before_lock_seq().len();
    let a = after_lock_seq().len();
    let limit = read_limit(v.max_polls);
    match v.phase {
        ClockPhase::PreLock => ((b - v.cursor) + 2 + limit + a) as nat,
        ClockPhase::Polling => ((limit - v.polls) + a + 1) as nat,
        ClockPhase::PostLock => ((a - v.cursor) + 1) as nat,
        _ => 0,
    }
}

/// Bounds that every reachable state of the set-up keeps.
pub open spec fn clock_view_ok(v: ClockInitView) -> bool {
    &&& v.phase == ClockPhase::PreLock ==> v.cursor <= before_lock_seq().len()
    &&& v.phase == ClockPhase::Polling ==> v.polls < read_limit(v.max_polls)
    &&& v.phase == ClockPhase::PostLock ==> 1 <= v.cursor <= after_lock_seq().len()
}

impl ClockInit {
    pub closed spec fn wf(&self) -> bool {
        &&& self.plan.before_lock@ == before_lock_seq()
        &&& self.plan.after_lock@ == after_lock_seq()
        &&& self.phase == ClockPhase::PreLock ==> self.cursor <= before_lock_seq().len()
        &&& self.phase == ClockPhase::Polling ==> self.polls < read_limit(self.max_polls)
        &&& self.phase == ClockPhase::PostLock ==> 1 <= self.cursor <= after_lock_seq().len()
    }

    /// Starts the set-up; PLL0 gets `max_polls` readings (at least one) to lock.
    pub fn new(max_polls: u32) -> (r: ClockInit)
        ensures
            r.wf(),
            clock_view_ok(r@),
            r@ == (ClockInitView { phase: ClockPhase::PreLock, cursor: 0, polls: 0, max_polls }),
    {
        ClockInit { plan: config_sys_clk(), phase: ClockPhase::PreLock, cursor: 0, polls: 0, max_polls }
    }

    /// The current phase.
    pub fn phase(&self) -> (r: ClockPhase)
        ensures
            r == self@.phase,
    {
        self.phase
    }

    /// Advances by one step. In the `Polling` phase `ev` carries the lock
    /// flag read for the `ReadPllStatus` action just returned.
    pub fn step(&mut self, ev: Event) -> (r: Action)
        requires
            old(self).wf(),
        ensures
            clock_view_ok(old(self)@),
            final(self).wf(),
            clock_view_ok(final(self)@),
            final(self)@.max_polls == old(self)@.max_polls,
            ({
                let o = old(self)@;
                let n = final(self)@;
                let b = before_lock_seq();
                let a = after_lock_seq();
                match o.phase {
                    ClockPhase::PreLock => if o.cursor < b.len() {
                        r == Action::Write(b[o.cursor as int]) && n == ClockInitView {
                            cursor: o.cursor + 1,
                            ..o
                        }
                    } else {
                        r == Action::ReadPllStatus && n == ClockInitView {
                            phase: ClockPhase::Polling,
                            polls: 0,
                            ..o
                        }
                    },
                    ClockPhase::Polling => match ev {
                        Event::PllStatus(true) => r == Action::Write(a[0]) && n
                            == ClockInitView { phase: ClockPhase::PostLock, cursor: 1, ..o },
                        Event::PllStatus(false) => if o.polls + 1 >= read_limit(o.max_polls) {
                            r == Action::Fault(BringupError::ClockLockTimeout) && n
                                == ClockInitView {
                                phase: ClockPhase::TimedOut,
                                polls: o.polls + 1,
                                ..o
                            }
                        } else {
                            r == Action::ReadPllStatus && n == ClockInitView {
                                polls: o.polls + 1,
                                ..o
                            }
                        },
                        Event::Ready => r == Action::ReadPllStatus && n == o,
                    },
                    ClockPhase::PostLock => if o.cursor < a.len() {
                        r == Action::Write(a[o.cursor as int]) && n == ClockInitView {
                            cursor: o.cursor + 1,
                            ..o
                        }
                    } else {
                        r == Action::Finished && n == ClockInitView {
                            phase: ClockPhase::Finished,
                            ..o
                        }
                    },
                    ClockPhase::Finished => r == Action::Finished && n == o,
                    ClockPhase::TimedOut => r == Action::Fault(BringupError::ClockLockTimeout)
                        && n == o,
                }
            }),
    {
        match self.phase {
            ClockPhase::PreLock => {
                if self.cursor < self.plan.before_lock.len() {
                    let w = self.plan.before_lock[self.cursor];
                    self.cursor = self.cursor + 1;
                    Action::Write(w)
                } else {
                    self.phase = ClockPhase::Polling;
                    self.polls = 0;
                    Action::ReadPllStatus
                }
            },
            ClockPhase::Polling => match ev {
                Event::PllStatus(true) => {
                    self.phase = ClockPhase::PostLock;
                    self.cursor = 1;
                    Action::Write(self.plan.after_lock[0])
                },
                Event::PllStatus(false) => {
                    self.polls = self.polls + 1;
                    if self.polls >= self.max_polls {
                        self.phase = ClockPhase::TimedOut;
                        Action::Fault(BringupError::ClockLockTimeout)
                    } else {
                        Action::ReadPllStatus
                    }
                },
                Event::Ready => Action::ReadPllStatus,
            },
            ClockPhase::PostLock => {
                if self.cursor < self.plan.after_lock.len() {
                    let w = self.plan.after_lock[self.cursor];
                    self.cursor = self.cursor + 1;
                    Action::Write(w)
                } else {
                    self.phase = ClockPhase::Finished;
                    Action::Finished
                }
            },
            ClockPhase::Finished => Action::Finished,
            ClockPhase::TimedOut => Action::Fault(BringupError::ClockLockTimeout),
        }
    }
}

} // verus!

verus! {

/// The clock tree set-up never writes the secondary core's power control.
pub proof fn lemma_clock_tree_no_power_write()
    ensures
        crate::handoff::no_power_write(clock_tree_seq()),
{
    let t = clock_tree_seq();
    let g1 = guarded_seq(disable_wdt_body());
    let g2 = guarded_seq(ilo_body());
    assert(t =~= g1 + wait_state_seq() + pll_setup_seq() + root_clock_seq() + g2);
    assert(g1 =~= seq![
        wr(Reg::WdtLock, Field::WdtLock, 1),
        wr(Reg::WdtLock, Field::WdtLock, 2),
        wr(Reg::WdtCtl, Field::Enable, 0),
        wr(Reg::WdtLock, Field::WdtLock, 3),
    ]);
    assert(g2 =~= seq![
        wr(Reg::WdtLock, Field::WdtLock, 1),
        wr(Reg::WdtLock, Field::WdtLock, 2),
        wr(Reg::ClkIlo0Config, Field::Enable, 1),
        wr(Reg::ClkIlo0Config, Field::Ilo0Backup, 1),
        wr(Reg::WdtLock, Field::WdtLock, 3),
    ]);
    assert forall|k: int| 0 <= k < t.len() implies (#[trigger] t[k]).reg != Reg::Cm4PwrCtl by {
        if k < 4 {
            assert(t[k] == g1[k]);
        } else if k < 11 {
            assert(t[k] == wait_state_seq()[k - 4]);
        } else if k < 16 {
            assert(t[k] == pll_setup_seq()[k - 11]);
        } else if k < 19 {
            assert(t[k] == root_clock_seq()[k - 16]);
        } else {
            assert(t[k] == g2[k - 19]);
        }
    }
}

} // verus!

verus! {

/// Whatever the lock state before it, every write of the clock tree set-up
/// to a lock-gated register (the watchdog control, the low-power oscillator)
/// happens while the watchdog is unlocked.
pub proof fn lemma_clock_tree_gated_writes_unlocked(s: WdtLockState)
    ensures
        gated_writes_unlocked(s, clock_tree_seq()),
        gated_writes_unlocked(s, before_lock_seq()),
{
    lemma_bodies_leave_lock_alone();
    let g1 = guarded_seq(disable_wdt_body());
    let mid = wait_state_seq() + pll_setup_seq();
    let r = root_clock_seq();
    let g2 = guarded_seq(ilo_body());
    assert forall|i: int| 0 <= i < mid.len() implies !is_wdt_gated((#[trigger] mid[i]).reg) by {
        if i < 7 {
            assert(mid[i] == wait_state_seq()[i]);
        } else {
            assert(mid[i] == pll_setup_seq()[i - 7]);
        }
    }
    assert forall|i: int| 0 <= i < r.len() implies !is_wdt_gated((#[trigger] r[i]).reg) by {
        assert(i == 0 || i == 1 || i == 2);
    }
    lemma_guarded_seq(s, disable_wdt_body());
    lemma_gated_concat(s, g1, mid);
    assert(before_lock_seq() =~= g1 + mid);
    lemma_gated_concat(s, before_lock_seq(), r);
    let s3 = wdt_after(s, before_lock_seq() + r);
    lemma_guarded_seq(s3, ilo_body());
    lemma_gated_concat(s, before_lock_seq() + r, g2);
    assert(clock_tree_seq() =~= before_lock_seq() + r + g2);
}

} // verus!
