pub mod regs;
pub mod trb;
