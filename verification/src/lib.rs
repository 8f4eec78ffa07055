//! Decoder for Linux ELF64 core dumps of x86-64 processes.
//!
//! The decoder works in three layers: a bounds-checked byte reader, the ELF
//! container (file header, program headers, notes) and the core-dump layer
//! that turns loadable segments and the `CORE` notes into a [`Core`].
//! Every layer states its result as a function of the input bytes.

pub mod ctypes;
pub mod dump;
pub mod elf;
pub mod error;
pub mod laws;
pub mod read;
pub mod util;

pub use crate::dump::{Core, FileMapping, ProcessInfo, Registers, Segment, ThreadInfo};
pub use crate::elf::{Elf, ProgramHeader};
pub use crate::error::{ErrorKind, HeaderField, ParseError, Record, RequiredNote};
