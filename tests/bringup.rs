use traveo_rust_demo::board::{get_core_frequency, vector_table_base, BootConfig, CoreId};
use traveo_rust_demo::clock::{config_sys_clk, Action, ClockInit, ClockPhase, Event};
use traveo_rust_demo::error::BringupError;
use traveo_rust_demo::handoff::{enable_cm4, CoreBringup};
use traveo_rust_demo::regs::{
    reg_write, Field, Reg, RegWrite, CM4_IMAGE_BASE, CM4_POWER_ON, PLL0_CONFIG, ROOT_ENABLE_BIT,
};
use traveo_rust_demo::sim::{primary_bringup, run_clock_init, wdt_lock_state, SimChip};
use traveo_rust_demo::uart::{config_scb_clk, is_uart_tx_fifo_empty, ScbDivider};
use traveo_rust_demo::watchdog::{lock_wdt, unlock_wdt, with_wdt_unlocked, WdtLockState};

fn position(trace: &[RegWrite], reg: Reg) -> Vec<usize> {
    trace
        .iter()
        .enumerate()
        .filter(|(_, w)| w.reg == reg)
        .map(|(i, _)| i)
        .collect()
}

fn last_write(trace: &[RegWrite], reg: Reg) -> RegWrite {
    *trace.iter().rev().find(|w| w.reg == reg).unwrap()
}

#[test]
fn unlock_then_lock_sequences() {
    let mut t = Vec::new();
    unlock_wdt(&mut t);
    assert_eq!(t.len(), 2);
    assert_eq!(t[0].value, 1);
    assert_eq!(t[1].value, 2);
    assert_eq!(wdt_lock_state(&t), WdtLockState::Unlocked);
    lock_wdt(&mut t);
    assert_eq!(t[2], reg_write(Reg::WdtLock, Field::WdtLock, 3));
    assert_eq!(wdt_lock_state(&t), WdtLockState::Locked);
}

#[test]
fn half_unlock_is_not_unlocked() {
    let t = vec![reg_write(Reg::WdtLock, Field::WdtLock, 1)];
    assert_eq!(wdt_lock_state(&t), WdtLockState::HalfUnlocked);
    let t = vec![reg_write(Reg::WdtLock, Field::WdtLock, 2)];
    assert_eq!(wdt_lock_state(&t), WdtLockState::Locked);
}

#[test]
fn clock_tree_leaves_watchdog_locked() {
    let mut chip = SimChip::new(Some(3));
    assert_eq!(run_clock_init(&mut chip, 10), Ok(()));
    assert_eq!(wdt_lock_state(&chip.trace), WdtLockState::Locked);

    let mut stuck = SimChip::new(None);
    assert_eq!(run_clock_init(&mut stuck, 10), Err(BringupError::ClockLockTimeout));
    assert_eq!(wdt_lock_state(&stuck.trace), WdtLockState::Locked);
}

#[test]
fn gated_writes_happen_unlocked() {
    let mut chip = SimChip::new(Some(0));
    assert_eq!(run_clock_init(&mut chip, 1), Ok(()));
    let mut gated = 0;
    for (i, w) in chip.trace.iter().enumerate() {
        if w.reg == Reg::WdtCtl || w.reg == Reg::ClkIlo0Config {
            let prefix: Vec<RegWrite> = chip.trace[..i].to_vec();
            assert_eq!(wdt_lock_state(&prefix), WdtLockState::Unlocked);
            gated += 1;
        }
    }
    assert_eq!(gated, 3);
}

#[test]
fn root_clocks_enabled_after_lock() {
    let mut chip = SimChip::new(Some(4));
    assert_eq!(run_clock_init(&mut chip, 100), Ok(()));
    assert_eq!(chip.status_reads, 5);
    assert!(chip.pll_locked());
    let root0 = last_write(&chip.trace, Reg::ClkRootSelect0);
    let root1 = last_write(&chip.trace, Reg::ClkRootSelect1);
    assert_eq!(root0.value & ROOT_ENABLE_BIT, ROOT_ENABLE_BIT);
    assert_eq!(root1.value & ROOT_ENABLE_BIT, ROOT_ENABLE_BIT);
    assert_eq!(root0.value, 0x8000_0001);
    assert_eq!(root1.value, 0x8000_0011);
    assert_eq!(chip.trace.len(), 24);
}

#[test]
fn pll_that_never_locks_times_out() {
    let mut chip = SimChip::new(None);
    assert_eq!(run_clock_init(&mut chip, 7), Err(BringupError::ClockLockTimeout));
    assert_eq!(chip.status_reads, 7);
    assert!(!chip.pll_locked());
    let plan = config_sys_clk();
    assert_eq!(chip.trace, plan.before_lock);
    assert!(position(&chip.trace, Reg::ClkRootSelect0).is_empty());
}

#[test]
fn pll_locking_on_last_allowed_reading_succeeds() {
    let mut chip = SimChip::new(Some(6));
    assert_eq!(run_clock_init(&mut chip, 7), Ok(()));
    assert_eq!(chip.status_reads, 7);
    let mut late = SimChip::new(Some(7));
    assert_eq!(run_clock_init(&mut late, 7), Err(BringupError::ClockLockTimeout));
}

#[test]
fn zero_poll_bound_still_reads_once() {
    let mut chip = SimChip::new(Some(0));
    assert_eq!(run_clock_init(&mut chip, 0), Ok(()));
    assert_eq!(chip.status_reads, 1);
    let mut stuck = SimChip::new(None);
    assert_eq!(run_clock_init(&mut stuck, 0), Err(BringupError::ClockLockTimeout));
    assert_eq!(stuck.status_reads, 1);
}

#[test]
fn wait_states_precede_frequency_increase() {
    let mut chip = SimChip::new(Some(1));
    assert_eq!(run_clock_init(&mut chip, 5), Ok(()));
    let t = &chip.trace;
    let wait: Vec<usize> = [Reg::RomCtl, Reg::Ram0Ctl0, Reg::Ram1Ctl0, Reg::FlashCtl]
        .iter()
        .flat_map(|r| position(t, *r))
        .collect();
    let raise: Vec<usize> = [
        Reg::Cm4ClockCtl,
        Reg::Cm0ClockCtl,
        Reg::ClkPllConfig0,
        Reg::ClkRootSelect0,
        Reg::ClkRootSelect1,
    ]
    .iter()
    .flat_map(|r| position(t, *r))
    .collect();
    assert_eq!(wait.len(), 7);
    assert_eq!(raise.len(), 5);
    assert!(wait.iter().max().unwrap() < raise.iter().min().unwrap());
}

#[test]
fn pll_configured_with_single_word() {
    let plan = config_sys_clk();
    assert_eq!(plan.before_lock.len(), 16);
    assert_eq!(plan.after_lock.len(), 8);
    assert_eq!(plan.before_lock[15], reg_write(Reg::ClkPllConfig0, Field::Word, PLL0_CONFIG));
    assert_eq!(plan.before_lock[14], reg_write(Reg::ClkPathSelect1, Field::PathMux, 0));
    assert_eq!(plan.after_lock[0], reg_write(Reg::ClkPathSelect2, Field::PathMux, 0));
}

#[test]
fn handoff_order_and_address() {
    let mut chip = SimChip::new(Some(2));
    let mut core = CoreBringup::new();
    let mut cfg = BootConfig::for_core(CoreId::Cm0);
    cfg.cm4_image_base = 0x1000_8000;
    assert_eq!(primary_bringup(&mut chip, &mut core, &cfg), Ok(()));
    assert!(core.is_powered());
    let vtor = position(&chip.trace, Reg::Cm4VectorTableBase);
    let pwr = position(&chip.trace, Reg::Cm4PwrCtl);
    assert_eq!(vtor.len(), 1);
    assert_eq!(pwr.len(), 1);
    assert!(vtor[0] < pwr[0]);
    assert_eq!(chip.trace[vtor[0]].value, 0x1000_8000);
    assert_eq!(chip.trace[pwr[0]].value, CM4_POWER_ON);
    assert_eq!(pwr[0], chip.trace.len() - 1);
    assert_eq!(wdt_lock_state(&chip.trace), WdtLockState::Locked);
}

#[test]
fn enable_cm4_writes_vector_base_then_power() {
    let mut core = CoreBringup::new();
    let mut t = Vec::new();
    assert_eq!(enable_cm4(&mut core, 0x1000_8000, &mut t), Ok(()));
    assert_eq!(
        t,
        vec![
            reg_write(Reg::Cm4VectorTableBase, Field::Word, 0x1000_8000),
            reg_write(Reg::Cm4PwrCtl, Field::Word, 0x05fa_0003),
        ]
    );
}

#[test]
fn second_power_on_is_refused() {
    let mut core = CoreBringup::new();
    let mut t = Vec::new();
    assert_eq!(enable_cm4(&mut core, CM4_IMAGE_BASE, &mut t), Ok(()));
    assert_eq!(enable_cm4(&mut core, CM4_IMAGE_BASE, &mut t), Err(BringupError::CoreAlreadyPowered));
    assert_eq!(t.len(), 2);
}

#[test]
fn second_bringup_writes_nothing() {
    let mut chip = SimChip::new(Some(0));
    let mut core = CoreBringup::new();
    let cfg = BootConfig::for_core(CoreId::Cm0);
    assert_eq!(primary_bringup(&mut chip, &mut core, &cfg), Ok(()));
    let len = chip.trace.len();
    let reads = chip.status_reads;
    assert_eq!(
        primary_bringup(&mut chip, &mut core, &cfg),
        Err(BringupError::CoreAlreadyPowered)
    );
    assert_eq!(chip.trace.len(), len);
    assert_eq!(chip.status_reads, reads);
    assert_eq!(position(&chip.trace, Reg::Cm4PwrCtl).len(), 1);
}

#[test]
fn timed_out_bringup_does_not_power_secondary_core() {
    let mut chip = SimChip::new(None);
    let mut core = CoreBringup::new();
    let mut cfg = BootConfig::for_core(CoreId::Cm0);
    cfg.pll_max_polls = 3;
    assert_eq!(
        primary_bringup(&mut chip, &mut core, &cfg),
        Err(BringupError::ClockLockTimeout)
    );
    assert!(!core.is_powered());
    assert!(position(&chip.trace, Reg::Cm4PwrCtl).is_empty());
    assert!(position(&chip.trace, Reg::Cm4VectorTableBase).is_empty());
}

#[test]
fn guard_relocks_after_body_fault() {
    let body = vec![
        reg_write(Reg::WdtCtl, Field::Enable, 0),
        reg_write(Reg::ClkIlo0Config, Field::Enable, 1),
        reg_write(Reg::ClkIlo0Config, Field::Ilo0Backup, 1),
    ];
    let mut t = Vec::new();
    assert_eq!(with_wdt_unlocked(&mut t, &body, Some(1)), Err(BringupError::GuardedBodyFault));
    assert_eq!(wdt_lock_state(&t), WdtLockState::Locked);
    assert_eq!(t.len(), 4);
    assert_eq!(t[2], body[0]);
    assert_eq!(t[3], reg_write(Reg::WdtLock, Field::WdtLock, 3));

    let mut t = Vec::new();
    assert_eq!(with_wdt_unlocked(&mut t, &body, Some(0)), Err(BringupError::GuardedBodyFault));
    assert_eq!(t.len(), 3);
    assert_eq!(wdt_lock_state(&t), WdtLockState::Locked);
}

#[test]
fn guard_without_fault_runs_whole_body() {
    let body = vec![reg_write(Reg::WdtCtl, Field::Enable, 0)];
    let mut t = vec![reg_write(Reg::WdtLock, Field::WdtLock, 1)];
    assert_eq!(with_wdt_unlocked(&mut t, &body, None), Ok(()));
    assert_eq!(t.len(), 5);
    assert_eq!(wdt_lock_state(&t), WdtLockState::Locked);
    let mut t = Vec::new();
    assert_eq!(with_wdt_unlocked(&mut t, &body, Some(1)), Ok(()));
    assert_eq!(t.len(), 4);
}

#[test]
fn state_machine_walks_plan_and_polls() {
    let mut sm = ClockInit::new(2);
    let plan = config_sys_clk();
    for w in plan.before_lock.iter() {
        assert_eq!(sm.step(Event::Ready), Action::Write(*w));
    }
    assert_eq!(sm.step(Event::Ready), Action::ReadPllStatus);
    assert_eq!(sm.phase(), ClockPhase::Polling);
    assert_eq!(sm.step(Event::Ready), Action::ReadPllStatus);
    assert_eq!(sm.step(Event::PllStatus(false)), Action::ReadPllStatus);
    assert_eq!(sm.step(Event::PllStatus(true)), Action::Write(plan.after_lock[0]));
    for w in plan.after_lock[1..].iter() {
        assert_eq!(sm.step(Event::Ready), Action::Write(*w));
    }
    assert_eq!(sm.step(Event::Ready), Action::Finished);
    assert_eq!(sm.phase(), ClockPhase::Finished);
    assert_eq!(sm.step(Event::Ready), Action::Finished);
}

#[test]
fn state_machine_times_out() {
    let mut sm = ClockInit::new(2);
    for _ in 0..16 {
        sm.step(Event::Ready);
    }
    assert_eq!(sm.step(Event::Ready), Action::ReadPllStatus);
    assert_eq!(sm.step(Event::PllStatus(false)), Action::ReadPllStatus);
    assert_eq!(
        sm.step(Event::PllStatus(false)),
        Action::Fault(BringupError::ClockLockTimeout)
    );
    assert_eq!(sm.phase(), ClockPhase::TimedOut);
    assert_eq!(
        sm.step(Event::PllStatus(true)),
        Action::Fault(BringupError::ClockLockTimeout)
    );
}

#[test]
fn core_frequencies_and_config() {
    assert_eq!(get_core_frequency(CoreId::Cm0), 80_000_000);
    assert_eq!(get_core_frequency(CoreId::Cm4), 160_000_000);
    let cfg = BootConfig::for_core(CoreId::Cm4);
    assert_eq!(cfg.core_frequency, 160_000_000);
    assert_eq!(cfg.cm4_image_base, 0x1000_8000);
}

#[test]
fn vector_table_base_is_one_word_below_reset_vector() {
    assert_eq!(vector_table_base(0x1000_0004), 0x1000_0000);
    assert_eq!(vector_table_base(4), 0);
}

#[test]
fn scb_divider_for_115200_baud() {
    assert_eq!(
        config_scb_clk(80_000_000, 115_200, 8),
        Some(ScbDivider { int24_div: 85, frac5_div: 26 })
    );
    assert_eq!(
        config_scb_clk(80_000_000, 9_600, 8),
        Some(ScbDivider { int24_div: 1040, frac5_div: 21 })
    );
}

#[test]
fn scb_divider_rejects_bad_inputs() {
    assert_eq!(config_scb_clk(80_000_000, 0, 8), None);
    assert_eq!(config_scb_clk(80_000_000, 115_200, 0), None);
    assert_eq!(config_scb_clk(1_000, 115_200, 8), None);
    assert_eq!(config_scb_clk(u32::MAX, 1, 1), None);
    assert_eq!(
        config_scb_clk(32, 1, 1),
        Some(ScbDivider { int24_div: 31, frac5_div: 0 })
    );
}

#[test]
fn tx_fifo_empty_only_when_idle() {
    assert!(is_uart_tx_fifo_empty(false, 0));
    assert!(!is_uart_tx_fifo_empty(true, 0));
    assert!(!is_uart_tx_fifo_empty(false, 3));
}
