//! The protection-and-memory core of a small single-core x86_64 kernel:
//! descriptor tables, interrupt dispatch, paging and the kernel heap, written
//! as plain data and functions whose behaviour is proved.

pub mod console;
pub mod interrupts;
pub mod memory;
pub mod task;
pub mod util;
pub mod vga;
