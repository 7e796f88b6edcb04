//! Laplace: the verified core of a deterministic hypervisor.

pub mod bare_metal;
pub mod bench;
pub mod bytes;
pub mod cli;
pub mod commands;
pub mod dtb;
pub mod elf;
pub mod exit_log;
pub mod fdt;
pub mod guest_heap;
pub mod guest_js;
pub mod hvf;
pub mod init;
pub mod kvm;
pub mod layout;
pub mod linux_boot;
pub mod linux_loop;
pub mod mailbox;
pub mod pl011;
pub mod psci;
pub mod registers;
pub mod rng;
pub mod runner;
pub mod snapshot;
pub mod spike;
pub mod text;
pub mod timer_patch;
pub mod uart8250;
pub mod vcpu;
pub mod vtimer;
