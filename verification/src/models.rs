//! Data carried across the pipeline: committed packs, parsed manifests, and
//! the status of the external player.
use vstd::prelude::*;

verus! {

/// A committed pack: one directory in the permanent store.
#[derive(Clone, Debug)]
pub struct SoundPack {
    pub id: String,
    pub name: String,
    pub version: String,
    pub author: Option<String>,
    pub description: Option<String>,
}

/// The fields read from a pack's `config.json`, with defaults applied.
#[derive(Clone, Debug)]
pub struct PackManifest {
    pub name: String,
    pub version: String,
    pub author: Option<String>,
    pub description: Option<String>,
}

/// Observed state of the external player binary.
#[derive(Clone, Debug)]
pub struct WayvibesStatus {
    pub installed: bool,
    pub running: bool,
    pub version: Option<String>,
    pub pid: Option<u32>,
}

/// Combine the raw observations (is the binary on the path, did a process
/// lookup succeed, which pid was seen) into a status record: a process only
/// counts as running when the binary is installed, and a pid is only
/// reported for a running process.
pub fn make_status(installed: bool, running_raw: bool, pid_raw: Option<u32>) -> (r: WayvibesStatus)
    ensures
        r.installed == installed,
        r.running == (installed && running_raw),
        r.pid == if installed && running_raw {
            pid_raw
        } else {
            None::<u32>
        },
        r.version is None,
{
    let running = installed && running_raw;
    WayvibesStatus {
        installed,
        running,
        version: None,
        pid: if running {
            pid_raw
        } else {
            None
        },
    }
}

} // verus!
