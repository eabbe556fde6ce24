//! Memory core of the syscall boundary of a small teaching kernel: anonymous
//! region mapping, page-spanning transfers into user memory, and a bounded
//! frame-pointer walk.
pub mod config;
pub mod address;
pub mod flags;
pub mod space;
pub mod region;
pub mod accessor;
pub mod marshal;
pub mod unwind;
pub mod syscall;
