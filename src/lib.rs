//! Host-side adapter between a WASI guest's abstract file interface and a
//! capability-scoped host filesystem: flag translation, file-type
//! classification, open planning and assembly of the execution context.
pub mod ctx;
pub mod dir;
pub mod error;
pub mod file;
pub mod flags;
pub mod string_array;

pub use ctx::{FileCaps, Resource, TableEntry, WasiCtx, WasiCtxBuilder};
pub use dir::{open_plan, OpenPlan};
pub use error::Error;
pub use file::{byte_count, filetype_from, FileType, HostFileType};
pub use flags::{
    get_fd_flags, to_host_options, to_sysif_fdflags, FdFlags, HostFdFlags, HostOpenOptions, OFlags,
};
pub use string_array::{StringArray, StringArrayError};
