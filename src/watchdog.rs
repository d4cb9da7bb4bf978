use vstd::prelude::*;

use crate::error::BringupError;
use crate::regs::{
    reg_write, wr, is_wdt_gated, Field, Reg, RegWrite, WDT_LOCK_VALUE, WDT_UNLOCK_FIRST,
    WDT_UNLOCK_SECOND,
};

verus! {

/// State of the watchdog lock register.
#[derive(Clone, Copy, PartialEq, Eq, Structural, Debug)]
pub enum WdtLockState {
    Locked,
    /// The first unlock value was written, the second not yet.
    HalfUnlocked,
    Unlocked,
}

/// Effect of one write on the watchdog lock state.
pub open spec fn wdt_apply(s: WdtLockState, w: RegWrite) -> WdtLockState {
    if w.reg != Reg::WdtLock {
        s
    } else if w.value == WDT_LOCK_VALUE {
        WdtLockState::Locked
    } else if w.value == WDT_UNLOCK_FIRST {
        if s == WdtLockState::Unlocked {
            WdtLockState::Unlocked
        } else {
            WdtLockState::HalfUnlocked
        }
    } else if w.value == WDT_UNLOCK_SECOND {
        if s == WdtLockState::HalfUnlocked {
            WdtLockState::Unlocked
        } else {
            s
        }
    } else {
        s
    }
}

/// Watchdog lock state after a trace of writes, starting from `s`.
pub open spec fn wdt_after(s: WdtLockState, t: Seq<RegWrite>) -> WdtLockState
    decreases t.len(),
{
    if t.len() == 0 {
        s
    } else {
        wdt_apply(wdt_after(s, t.drop_last()), t.last())
    }
}

/// No write of `t` touches the watchdog lock register.
pub open spec fn leaves_lock_alone(t: Seq<RegWrite>) -> bool {
    forall|i: int| 0 <= i < t.len() ==> (#[trigger] t[i]).reg != Reg::WdtLock
}

/// Every write of `t` to a lock-gated register happens while the watchdog is
/// unlocked, starting from `s`.
pub open spec fn gated_writes_unlocked(s: WdtLockState, t: Seq<RegWrite>) -> bool {
    forall|i: int|
        0 <= i < t.len() && is_wdt_gated((#[trigger] t[i]).reg) ==> wdt_after(s, t.take(i))
            == WdtLockState::Unlocked
}

pub open spec fn unlock_seq() -> Seq<RegWrite> {
    seq![
        wr(Reg::WdtLock, Field::WdtLock, WDT_UNLOCK_FIRST),
        wr(Reg::WdtLock, Field::WdtLock, WDT_UNLOCK_SECOND),
    ]
}

pub open spec fn lock_seq() -> Seq<RegWrite> {
    seq![wr(Reg::WdtLock, Field::WdtLock, WDT_LOCK_VALUE)]
}

/// Running `a` then `b` is running `b` from where `a` left the lock.
pub proof fn lemma_wdt_after_concat(s: WdtLockState, a: Seq<RegWrite>, b: Seq<RegWrite>)
    ensures
        wdt_after(s, a + b) == wdt_after(wdt_after(s, a), b),
    decreases b.len(),
{
    if b.len() == 0 {
        assert(a + b =~= a);
    } else {
        lemma_wdt_after_concat(s, a, b.drop_last());
        assert((a + b).drop_last() =~= a + b.drop_last());
        assert((a + b).last() == b.last());
    }
}

/// Writes that leave the lock register alone leave its state alone.
pub proof fn lemma_wdt_untouched(s: WdtLockState, t: Seq<RegWrite>)
    requires
        leaves_lock_alone(t),
    ensures
        wdt_after(s, t) == s,
    decreases t.len(),
{
    if t.len() > 0 {
        assert(t[t.len() - 1] == t.last());
        assert forall|i: int| 0 <= i < t.drop_last().len() implies (#[trigger] t.drop_last()[i]).reg
            != Reg::WdtLock by {
            assert(t.drop_last()[i] == t[i]);
        }
        lemma_wdt_untouched(s, t.drop_last());
    }
}

/// The unlock sequence unlocks from every state.
pub proof fn lemma_unlock_seq(s: WdtLockState)
    ensures
        wdt_after(s, unlock_seq()) == WdtLockState::Unlocked,
{
    let u = unlock_seq();
    assert(u.drop_last() =~= seq![u[0]]);
    assert(seq![u[0]].drop_last() =~= Seq::<RegWrite>::empty());
    assert(wdt_after(s, Seq::<RegWrite>::empty()) == s);
    assert(seq![u[0]].last() == u[0]);
    assert(wdt_after(s, seq![u[0]]) == wdt_apply(s, u[0]));
}

/// The lock sequence locks from every state.
pub proof fn lemma_lock_seq(s: WdtLockState)
    ensures
        wdt_after(s, lock_seq()) == WdtLockState::Locked,
{
    assert(lock_seq().drop_last() =~= Seq::<RegWrite>::empty());
    assert(wdt_after(s, Seq::<RegWrite>::empty()) == s);
}

/// Appends the two-step unlock sequence to `trace`.
pub fn unlock_wdt(trace: &mut Vec<RegWrite>)
    ensures
        final(trace)@ == old(trace)@ + unlock_seq(),
{
    trace.push(reg_write(Reg::WdtLock, Field::WdtLock, WDT_UNLOCK_FIRST));
    trace.push(reg_write(Reg::WdtLock, Field::WdtLock, WDT_UNLOCK_SECOND));
    assert(final(trace)@ =~= old(trace)@ + unlock_seq());
}

/// Appends the one-step lock sequence to `trace`.
pub fn lock_wdt(trace: &mut Vec<RegWrite>)
    ensures
        final(trace)@ == old(trace)@ + lock_seq(),
{
    trace.push(reg_write(Reg::WdtLock, Field::WdtLock, WDT_LOCK_VALUE));
    assert(final(trace)@ =~= old(trace)@ + lock_seq());
}

} // verus!

verus! {

/// How many writes of a guarded body run: all of them, or those before the fault.
pub open spec fn guarded_prefix_len(body_len: nat, fault_at: Option<usize>) -> nat {
    match fault_at {
        Some(f) => if (f as nat) < body_len {
            f as nat
        } else {
            body_len
        },
        None => body_len,
    }
}

/// A guarded operation: unlock, the body, lock.
pub open spec fn guarded_seq(body: Seq<RegWrite>) -> Seq<RegWrite> {
    unlock_seq() + body + lock_seq()
}

/// Whatever state the lock starts in and whatever the body writes (so long
/// as it leaves the lock register alone), a guarded operation leaves the
/// watchdog locked, and every lock-gated write of the body happens unlocked.
pub proof fn lemma_guarded_seq(s: WdtLockState, body: Seq<RegWrite>)
    requires
        leaves_lock_alone(body),
    ensures
        wdt_after(s, guarded_seq(body)) == WdtLockState::Locked,
        gated_writes_unlocked(s, guarded_seq(body)),
{
    let t = guarded_seq(body);
    lemma_unlock_seq(s);
    lemma_wdt_untouched(WdtLockState::Unlocked, body);
    lemma_wdt_after_concat(s, unlock_seq(), body);
    lemma_wdt_after_concat(s, unlock_seq() + body, lock_seq());
    lemma_lock_seq(wdt_after(s, unlock_seq() + body));
    assert forall|i: int|
        0 <= i < t.len() && is_wdt_gated((#[trigger] t[i]).reg) implies wdt_after(s, t.take(i))
        == WdtLockState::Unlocked by {
        if 2 <= i < 2 + body.len() {
            let pre = body.take(i - 2);
            assert(t.take(i) =~= unlock_seq() + pre);
            assert forall|j: int| 0 <= j < pre.len() implies (#[trigger] pre[j]).reg
                != Reg::WdtLock by {
                assert(pre[j] == body[j]);
            }
            lemma_wdt_untouched(WdtLockState::Unlocked, pre);
            lemma_wdt_after_concat(s, unlock_seq(), pre);
        } else if i < 2 {
            assert(t[i] == unlock_seq()[i]);
        } else {
            assert(t[i] == lock_seq()[0]);
        }
    }
}

/// Runs `body` with the watchdog unlocked and locks it again on every exit
/// path. A fault of the body at position `f` (before its `f`-th write)
/// skips the rest of the body, still locks, and is reported.
pub fn with_wdt_unlocked(
    trace: &mut Vec<RegWrite>,
    body: &Vec<RegWrite>,
    fault_at: Option<usize>,
) -> (r: Result<(), BringupError>)
    requires
        leaves_lock_alone(body@),
    ensures
        final(trace)@ == old(trace)@ + guarded_seq(
            body@.take(guarded_prefix_len(body@.len(), fault_at) as int),
        ),
        r is Err <==> (fault_at is Some && fault_at.unwrap() < body@.len()),
        r is Err ==> r == Err::<(), BringupError>(BringupError::GuardedBodyFault),
        forall|s: WdtLockState| wdt_after(s, final(trace)@) == WdtLockState::Locked,
{
    let ghost start = trace@;
    let n: usize = match fault_at {
        Some(f) => if f < body.len() {
            f
        } else {
            body.len()
        },
        None => body.len(),
    };
    unlock_wdt(trace);
    let mut i: usize = 0;
    while i < n
        invariant
            n <= body@.len(),
            i <= n,
            trace@ == start + unlock_seq() + body@.take(i as int),
        decreases n - i,
    {
        trace.push(body[i]);
        assert(body@.take(i + 1) =~= body@.take(i as int).push(body@[i as int]));
        i = i + 1;
    }
    lock_wdt(trace);
    let ghost done = body@.take(n as int);
    assert(trace@ =~= start + guarded_seq(done));
    assert forall|s: WdtLockState| wdt_after(s, trace@) == WdtLockState::Locked by {
        assert forall|j: int| 0 <= j < done.len() implies (#[trigger] done[j]).reg
            != Reg::WdtLock by {
            assert(done[j] == body@[j]);
        }
        lemma_guarded_seq(wdt_after(s, start), done);
        lemma_wdt_after_concat(s, start, guarded_seq(done));
    }
    if n < body.len() {
        Err(BringupError::GuardedBodyFault)
    } else {
        Ok(())
    }
}

} // verus!

verus! {

/// No write of `t` goes to a lock-gated register.
pub open spec fn no_gated_write(t: Seq<RegWrite>) -> bool {
    forall|i: int| 0 <= i < t.len() ==> !is_wdt_gated((#[trigger] t[i]).reg)
}

/// Gated writes stay unlocked across a concatenation when they do in each
/// part, the second part starting from where the first left the lock.
pub proof fn lemma_gated_concat(s: WdtLockState, a: Seq<RegWrite>, b: Seq<RegWrite>)
    requires
        gated_writes_unlocked(s, a),
        gated_writes_unlocked(wdt_after(s, a), b),
    ensures
        gated_writes_unlocked(s, a + b),
{
    let t = a + b;
    assert forall|i: int|
        0 <= i < t.len() && is_wdt_gated((#[trigger] t[i]).reg) implies wdt_after(s, t.take(i))
        == WdtLockState::Unlocked by {
        if i < a.len() {
            assert(t[i] == a[i]);
            assert(t.take(i) =~= a.take(i));
        } else {
            let k = i - a.len();
            assert(t[i] == b[k]);
            assert(t.take(i) =~= a + b.take(k));
            lemma_wdt_after_concat(s, a, b.take(k));
        }
    }
}

} // verus!
