//! What concerns the databases that the library manages.

pub mod laws;
pub mod resolver;

use crate::message::{decimal, decimal_digits};
use vstd::prelude::*;
use vstd::string::StringExecFns;

verus! {

/// Parameters for a one-time state-sync pass.
#[derive(Clone, Copy, Debug)]
pub struct SyncEngineConfig {
    /// Maximum operations fetched per resolver request: at least one.
    pub fetch_batch_size: u64,
    /// Number of operations applied per local apply step.
    pub apply_batch_size: usize,
    /// Maximum number of outstanding resolver requests.
    pub max_outstanding_requests: usize,
    /// Capacity of per-database target-update channels: at least one.
    pub update_channel_size: usize,
}

impl SyncEngineConfig {
    /// Fetches ask for at least one operation, and channels hold at least one update.
    pub open spec fn wf(self) -> bool {
        self.fetch_batch_size > 0 && self.update_channel_size > 0
    }
}

/// Says which database could not be finalized, and why. The index is that of the
/// database in its set, if it has more than one.
///
/// Such a failure is fatal: other databases of the set may have committed already.
pub fn finalize_failure(index: Option<u64>, name: &str, error: &str) -> (message: String)
    ensures
        message@ == "database finalize failed ("@ + (match index {
            Some(index) => "index "@ + decimal_digits(index as nat) + ", "@,
            None => Seq::empty(),
        }) + "type "@ + name@ + "): "@ + error@,
{
    let head = String::from_str("database finalize failed (");
    let head = match index {
        Some(index) => head.concat("index ").concat(decimal(index).as_str()).concat(", "),
        None => head,
    };
    let message = head.concat("type ").concat(name).concat("): ").concat(error);
    assert(message@ =~= "database finalize failed ("@ + (match index {
        Some(index) => "index "@ + decimal_digits(index as nat) + ", "@,
        None => Seq::empty(),
    }) + "type "@ + name@ + "): "@ + error@);
    message
}

/// Says which database of a set could not be synced, and why.
pub fn sync_failure(index: u64, name: &str, error: &str) -> (message: String)
    ensures
        message@ == "state sync failed (index "@ + decimal_digits(index as nat) + ", db "@
            + name@ + "): "@ + error@,
{
    String::from_str("state sync failed (index ").concat(decimal(index).as_str()).concat(
        ", db ",
    ).concat(name).concat("): ").concat(error)
}

} // verus!
