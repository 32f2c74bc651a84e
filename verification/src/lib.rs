pub mod delay;
pub mod elf;
pub mod graphics;
pub mod input;
pub mod interrupts;
pub mod memory;
pub mod process;
pub mod serial;
pub mod syscall;
pub mod usb;
pub mod wm;
pub mod xhci_pci;
pub mod ax_sync;
pub mod terminal;
pub mod launcher;
pub mod wasm;
pub mod boot;
pub mod shell;
