# rusty

The logic of the RustyOS hobby kernel as a Verus-verified library, with the
kernel image around it.

- `src/` is the library. Each module is the decision side of one kernel
  subsystem, written over plain values with its contract proved:
  ELF checking and segment planning (`elf`), the memory layout, bump
  allocators, DMA placement and user page-table walks (`memory`), the
  process table and scheduler (`process`), system-call decoding and
  handlers (`syscall`), keyboard and mouse reports and queues (`input`),
  USB descriptors, HID enumeration, xHCI registers and TRBs, and root-port
  readiness (`usb`), PCI configuration and MSI/MSI-X plans (`xhci_pci`),
  the local APIC (`interrupts`), windows and the compositor (`wm`),
  framebuffer drawing (`graphics`), the serial and on-screen log
  (`serial`), the boot screen (`boot`), the kernel's launcher and terminal
  programs, the user-space terminal (`shell`), timing (`delay`), the lock platform
  (`ax_sync`) and the WASM host call (`wasm`).
- `app/` is the kernel binary: the bootloader entry, port, MSR and MMIO
  access, the font rasterizer, the `wasmi` runtime, the `dma_api` and
  `ax-sync` backends, and the boot, PCI, timing, screen and launcher loops
  that hand the library its inputs. It does not yet drive the xHCI
  controller, HID enumeration, user processes or system calls: those need
  descriptor tables and address spaces that it does not set up, so that
  part of the library runs only under `tests/`.
- `tests/` runs the library on concrete values.
