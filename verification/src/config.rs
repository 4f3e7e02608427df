//! The configuration the daemon runs with, validated once at startup, and
//! the fixed permission bits the destination file and its directory are kept
//! at, which the SSH daemon's strictness requires (nothing beyond the owner
//! may read or write them).

use vstd::prelude::*;

verus! {

/// Permission bits of the destination file: owner read and write only.
pub const FILE_MODE: u32 = 0o600;

/// Permission bits of the destination's parent directory: owner read,
/// write and traverse only.
pub const DIR_MODE: u32 = 0o700;

/// Whether `mode` is exactly the owner-only mode the destination file is
/// created with and must keep.
pub fn owner_only_file_mode(mode: u32) -> (r: bool)
    ensures
        r == (mode == 0o600),
{
    mode == FILE_MODE
}

/// Whether `mode` is exactly the owner-only mode the destination's parent
/// directory is created with and must keep.
pub fn owner_only_dir_mode(mode: u32) -> (r: bool)
    ensures
        r == (mode == 0o700),
{
    mode == DIR_MODE
}

/// What the daemon is told once at startup and never changes afterwards.
pub struct SyncConfig {
    /// Path of the destination authorized-keys file, as bytes.
    pub dest_path: Vec<u8>,
    /// The identities whose keys are fetched, in the order their blocks
    /// appear in the aggregate. Duplicates are allowed and kept.
    pub identities: Vec<Vec<u8>>,
    /// Interval between cycle starts, in nanoseconds.
    pub interval_ns: u64,
}

impl SyncConfig {
    /// The configuration's invariant: a positive interval, and no empty
    /// identity name.
    pub open spec fn wf(self) -> bool {
        &&& self.interval_ns > 0
        &&& forall|i: int|
            0 <= i < self.identities@.len() ==> (#[trigger] self.identities@[i]@).len() > 0
    }

    /// Validates and assembles a configuration from already-parsed fields.
    /// Succeeds, keeping every field exactly as given, when the interval is
    /// positive and every identity name is non-empty; rejects anything else.
    #[verifier::loop_isolation(false)]
    pub fn new(dest_path: Vec<u8>, identities: Vec<Vec<u8>>, interval_ns: u64) -> (r: Option<
        SyncConfig,
    >)
        ensures
            r is Some <==> (interval_ns > 0 && forall|i: int|
                0 <= i < identities@.len() ==> (#[trigger] identities@[i]@).len() > 0),
            r is Some ==> r->0 == (SyncConfig { dest_path, identities, interval_ns }),
            r is Some ==> r->0.wf(),
    {
        if interval_ns == 0 {
            return None;
        }
        let n: usize = identities.len();
        let mut i: usize = 0;
        while i < n
            invariant
                i <= n,
                forall|j: int| 0 <= j < i ==> (#[trigger] identities@[j]@).len() > 0,
            decreases n - i,
        {
            if identities[i].len() == 0 {
                return None;
            }
            i = i + 1;
        }
        Some(SyncConfig { dest_path, identities, interval_ns })
    }
}

} // verus!
