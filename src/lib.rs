pub mod board;
pub mod clock;
pub mod error;
pub mod handoff;
pub mod regs;
pub mod sim;
pub mod uart;
pub mod watchdog;
