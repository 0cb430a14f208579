//! Runtime support pieces of the Motor OS (moturus) user-space runtime:
//! the algebra of bit-flag sets and the flag-set types built on it, the
//! text of flag sets and of numbers in bases 2 to 16, the frame-pointer
//! backtrace walk and its report, and the arithmetic of the page-granular
//! back-end allocator and of the process exit status.
pub mod algebra;
pub mod backend;
pub mod backtrace;
pub mod flag_sets;
pub mod flag_text;
pub mod radix;
