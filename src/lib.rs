//! Name hashing, byte-pattern scanning, export-table resolution and system-call
//! stub analysis for 64-bit Windows images.
//!
//! A loaded module is handled as a byte buffer that holds its image together
//! with the address it is mapped at; a loader's module list as a snapshot of
//! records. Every field is read through the bounds-checked little-endian
//! accessors of `image`, at the fixed offsets named beside the code that reads
//! them, and a field outside the buffer is reported as `InvalidAddress`.
pub mod hashing;
pub mod helper;
pub mod image;
pub mod jop;
pub mod peb_walk;
pub mod pfunction;
pub mod syscall;
