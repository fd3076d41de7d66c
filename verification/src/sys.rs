//! Constants and plain enums of the MDB module interface.

use vstd::prelude::*;

verus! {

/// Version of the dmod interface that modules register with.
pub const MDB_API_VERSION: u16 = 5;

/// Command completed successfully.
pub const DCMD_OK: i32 = 0;
/// Command failed.
pub const DCMD_ERR: i32 = 1;
/// Invalid arguments; MDB prints the usage.
pub const DCMD_USAGE: i32 = 2;
/// Invoke the next dcmd with the same arguments.
pub const DCMD_NEXT: i32 = 3;
/// Command failed; abort the pipeline or loop.
pub const DCMD_ABORT: i32 = 4;

/// An explicit address was specified.
pub const DCMD_ADDRSPEC: u32 = 0x01;
/// The dcmd was invoked in a loop.
pub const DCMD_LOOP: u32 = 0x02;
/// First invocation of the dcmd in a loop.
pub const DCMD_LOOPFIRST: u32 = 0x04;
/// The dcmd was invoked with input from a pipeline.
pub const DCMD_PIPE: u32 = 0x08;
/// The dcmd was invoked with output set to a pipeline.
pub const DCMD_PIPE_OUT: u32 = 0x10;

/// A walk step failed.
pub const WALK_ERR: i32 = -1;
/// The walk continues.
pub const WALK_NEXT: i32 = 0;
/// The walk is complete.
pub const WALK_DONE: i32 = 1;

/// Allocation may fail rather than wait.
pub const UM_NOSLEEP: u32 = 0x0;
/// Allocation waits until memory is available.
pub const UM_SLEEP: u32 = 0x1;

/// Opaque cookie used by tab completion; only ever seen behind a pointer.
pub struct mdb_tab_cookie_t {
    _private: (),
}

/// The kind of value a native dcmd argument holds.
#[derive(Clone, Copy, Debug, PartialEq, Eq)]
pub enum mdb_type_t {
    MDB_TYPE_STRING,
    MDB_TYPE_IMMEDIATE,
    MDB_TYPE_CHAR,
}

} // verus!
