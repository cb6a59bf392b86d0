//! The platform-free logic of the macOS audio backend.  macOS offers no
//! per-application volume control, so that setter accepts and ignores every
//! command; the session list is built from the running audio applications,
//! with a single generic entry when none is found.  Reading and setting the
//! system volume, and finding which applications run, go through the
//! platform adapter outside the library.

use crate::types::{clone_string, AudioSession, AudioSessionView};
use vstd::prelude::*;
use vstd::string::StringExecFns;

verus! {

/// The session entry for one running application: the display name as
/// handed in, the process name with the application-bundle suffix, and a
/// nominal half volume (the platform cannot report per-application volume).
pub open spec fn spec_app_session(name: Seq<char>, pid: u32) -> AudioSessionView {
    AudioSessionView {
        process_id: pid,
        process_name: name + ".app"@,
        display_name: name,
        volume: 50,
        is_muted: false,
    }
}

/// The generic entry served when no running audio application was found.
pub open spec fn spec_fallback_session() -> AudioSessionView {
    AudioSessionView {
        process_id: 1234,
        process_name: "System Audio"@,
        display_name: "System Audio"@,
        volume: 50,
        is_muted: false,
    }
}

/// The macOS audio backend's portable logic.
pub struct MacOSAudioManager;

impl MacOSAudioManager {
    /// A macOS backend.
    pub fn new() -> (r: MacOSAudioManager) {
        MacOSAudioManager
    }

    /// The session list for the running audio applications, given as
    /// (display name, process id) pairs; a single generic entry when none
    /// runs.
    pub fn sessions_from_running(apps: &Vec<(String, u32)>) -> (r: Vec<AudioSession>)
        ensures
            apps@.len() > 0 ==> r@.len() == apps@.len(),
            forall|i: int|
                0 <= i < apps@.len() ==> (#[trigger] r@[i]).deep_view() == spec_app_session(
                    apps@[i].0@,
                    apps@[i].1,
                ),
            apps@.len() == 0 ==> r.deep_view() == seq![spec_fallback_session()],
    {
        let mut r: Vec<AudioSession> = Vec::new();
        if apps.len() == 0 {
            let mut name = String::new();
            name.append("System Audio");
            let mut display = String::new();
            display.append("System Audio");
            r.push(
                AudioSession {
                    process_id: 1234,
                    process_name: name,
                    display_name: display,
                    volume: 50,
                    is_muted: false,
                },
            );
            proof {
                assert(r.deep_view() =~= seq![spec_fallback_session()]);
            }
            return r;
        }
        let mut i: usize = 0;
        while i < apps.len()
            invariant
                i <= apps@.len(),
                r@.len() == i,
                forall|j: int|
                    0 <= j < i ==> (#[trigger] r@[j]).deep_view() == spec_app_session(
                        apps@[j].0@,
                        apps@[j].1,
                    ),
            decreases apps@.len() - i,
        {
            let name = &apps[i].0;
            let pid = apps[i].1;
            let mut process_name = clone_string(name);
            process_name.append(".app");
            r.push(
                AudioSession {
                    process_id: pid,
                    process_name,
                    display_name: clone_string(name),
                    volume: 50,
                    is_muted: false,
                },
            );
            i += 1;
        }
        r
    }

    /// macOS cannot set one application's volume; the command is accepted
    /// and ignored so that the pipeline treats the platform uniformly.
    pub fn set_app_volume(&self, process_id: u32, volume: u32) -> (r: Result<(), String>)
        ensures
            r is Ok,
    {
        Ok(())
    }
}

impl Default for MacOSAudioManager {
    fn default() -> (r: MacOSAudioManager) {
        MacOSAudioManager::new()
    }
}

} // verus!
