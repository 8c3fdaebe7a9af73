//! User-mode side of a filesystem minifilter: the command and event wire
//! formats, the decoding of event batches, and the correlation of events into
//! per-family process records.

pub mod driver_comm;
pub mod layout;
pub mod paths;
pub mod process;
pub mod scan;
pub mod shared_def;
pub mod slc_paths;
pub mod wide;
pub mod worker;
