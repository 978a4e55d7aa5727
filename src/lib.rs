//! Core of a RISC-V type-1 hypervisor: the physical frame allocator, the host
//! and guest (G-stage) page tables, the vCPU / VM / pCPU data model, the
//! exit-dispatch and world-switch logic, and the hypercall (SBI) mediation layer.
//!
//! Everything that touches hardware registers, firmware calls or raw memory
//! stays outside this crate; the library works on plain values that the
//! caller reads from and writes back to the machine.
pub mod addr;
pub mod bits;
pub mod config;
pub mod console;
pub mod csr;
pub mod dtb;
pub mod error;
pub mod frame;
pub mod guest_page_table;
pub mod heap;
pub mod hgatp;
pub mod mem_window;
pub mod pcpu;
pub mod percpu;
pub mod page_table;
pub mod pte;
pub mod radix;
pub mod region;
pub mod sbi;
pub mod trap;
pub mod scause;
pub mod vconfig;
pub mod vcpu;
pub mod vm;
pub mod vm_exit;
pub mod world_switch;

