use vstd::prelude::*;

verus! {

// Layout of the native client's status buffers. The offsets were found by
// observing what the library writes; no vendor documentation backs them, and
// fields beyond these are not known.

/// Capacity of the buffers handed to the process, cursor and name queries.
pub const BUFFER_SIZE: usize = 60000;

/// Capacity of the buffer handed to the configuration query.
pub const CONFIG_BUFFER_SIZE: usize = 512;

/// Information flags that select the process table.
pub const PROCESS_INFO_FLAGS: i32 = 32 | 32768;

/// Information flags that select the cursor table.
pub const CURSOR_INFO_FLAGS: i32 = 2;

/// Information flags that select the server configuration.
pub const CONFIG_INFO_FLAGS: i32 = 8 | 32768;

/// Width of one process record.
pub const PROCESS_STRIDE: usize = 160;

/// Offset of the process identifier byte within a process record.
pub const PROCESS_ID_OFFSET: usize = 22;

/// Offset of the status string within a process record.
pub const PROCESS_STATUS_OFFSET: usize = 80;

/// The status text of a process that is serving a request.
pub const ACTIVE_STATUS: &'static str = "performing request";

/// Width of one cursor record.
pub const CURSOR_STRIDE: usize = 60;

/// Offset of the owning process identifier byte within a cursor record.
pub const CURSOR_PROCESS_ID_OFFSET: usize = 29;

/// Offset of the database name string within a cursor record.
pub const CURSOR_DATABASE_OFFSET: usize = 52;

/// Offset of the server name string in the configuration buffer.
pub const CONFIG_SERVER_OFFSET: usize = 26;

/// Offset of the start time string in the configuration buffer.
pub const CONFIG_BOOT_TIME_OFFSET: usize = 324;

/// Offset of the version string in the configuration buffer.
pub const CONFIG_VERSION_OFFSET: usize = 371;

/// Offset of the online flag byte in the configuration buffer.
pub const CONFIG_ONLINE_OFFSET: usize = 391;

/// Value of the online flag byte when the server is online.
pub const CONFIG_ONLINE_VALUE: u8 = 1;

} // verus!
