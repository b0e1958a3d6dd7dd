//! Process-management system calls of a small kernel: copying kernel records
//! into a process's paged user memory, and mapping or unmapping user pages.

pub mod addr;
pub mod perm;
pub mod memory;
pub mod task;
pub mod syscall;
