//! Names that the whole crate shares.

use vstd::prelude::*;

verus! {

/// The name of the file that holds the desired snapshot.
pub const CONFIG_FILE: &'static str = "oh-my-droid.toml";

/// The least size of the disk, in gigabytes, with which a run goes on.
pub const MIN_DISK_GB: u64 = 7;

} // verus!
