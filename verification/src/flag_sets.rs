//! The flag-set types. Every type is a plain wrapper around an integer
//! whose bits are the flags; its view is that integer's bit pattern,
//! zero-extended to 128 bits, and each operation is specified by the
//! functions of `crate::algebra` on that view.
pub mod another_set_of_flags;
pub mod deprecated;
pub mod empty_flags;
pub mod flags;
pub mod gapped_flags;
pub mod in_function;
pub mod long_flags;
pub mod submodule;
pub mod wide;
pub mod zero_value;
