//! The arguments of the MCP tools.
use vstd::prelude::*;

verus! {

/// The board a tool acts on: a boards.json nickname, a short name (ppk2,
/// jlink, sniffer — must be unique on the bus), or a USB serial substring
/// (must be unique).
#[derive(Debug, Clone)]
pub struct TargetArgs {
    pub target: String,
}

/// A power cycle's board and how long to hold power off.
#[derive(Debug, Clone)]
pub struct CycleArgs {
    /// Board to act on: nickname, short name, or USB serial substring.
    pub target: String,
    /// Seconds to hold power off before turning back on (1–120). Defaults to 5.
    pub off_seconds: Option<u64>,
}

impl CycleArgs {
    /// The seconds to hold power off: as given, else 5.
    pub fn hold_seconds(&self) -> (r: u64)
        ensures
            r == match self.off_seconds {
                Some(n) => n,
                None => 5,
            },
    {
        match self.off_seconds {
            Some(n) => n,
            None => 5,
        }
    }
}

} // verus!
