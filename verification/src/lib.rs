//! The memory-management system calls of a small kernel in which every task
//! has an address space of its own: mapping and unmapping regions of pages,
//! and delivering the time of day into a task's memory.
//!
//! A system call works on the address space of the task that made it. The
//! caller hands that address space in; nothing here keeps state of its own.

pub mod address;
pub mod address_space;
pub mod config;
pub mod page_table;
pub mod permission;
pub mod syscall;
pub mod theorems;
pub mod time;

pub use address::{PhysAddr, PhysPageNum, VirtAddr, VirtPageNum};
pub use address_space::AddressSpace;
pub use config::{FAILURE, MAX_PAGE_NUMBER, MICROS_PER_SEC, PAGE_SIZE, SUCCESS};
pub use page_table::PageTableEntry;
pub use permission::MapPermission;
pub use syscall::{sys_get_time, sys_mmap, sys_munmap, sys_yield};
pub use time::{TimeVal, TIMEVAL_SIZE};
