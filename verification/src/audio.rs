//! The audio backend capability interface, and the portable backends: the
//! stub backend that serves fixed data where no platform binding exists, and
//! the logic of the macOS backend that does not need the platform.  Platform
//! bindings implement the same interface outside the library and may fail on
//! any call; nothing here relies on their answers being accurate.

pub mod macos_impl;
pub mod stub_impl;

use crate::types::{AudioSession, AudioSessionView};
use vstd::prelude::*;
use vstd::string::StringExecFns;

verus! {

/// Session enumeration and volume control, as a capability.  Every call is
/// fallible; errors carry a textual cause.  Volumes are percentages.
pub trait AudioManager {
    /// The current audio sessions.  An entry with process id zero, if
    /// present, stands for the system master volume.
    fn get_audio_sessions(&self) -> Result<Vec<AudioSession>, String>;

    /// Set one application's volume by process id.
    fn set_app_volume(&self, process_id: u32, volume: u32) -> Result<(), String>;

    /// Set the system master volume.
    fn set_master_volume(&self, volume: u32) -> Result<(), String>;

    /// Read the system master volume.
    fn get_master_volume(&self) -> Result<u32, String>;
}

/// The single master-volume entry served when enumeration finds no session.
pub open spec fn spec_master_only_session() -> AudioSessionView {
    AudioSessionView {
        process_id: 0,
        process_name: "Master"@,
        display_name: "Master Volume"@,
        volume: 75,
        is_muted: false,
    }
}

/// The fixed list served when enumeration fails outright: the master entry
/// and two familiar applications.
pub open spec fn spec_degraded_sessions() -> Seq<AudioSessionView> {
    seq![
        spec_master_only_session(),
        AudioSessionView {
            process_id: 1234,
            process_name: "chrome.exe"@,
            display_name: "Google Chrome"@,
            volume: 50,
            is_muted: false,
        },
        AudioSessionView {
            process_id: 5678,
            process_name: "spotify.exe"@,
            display_name: "Spotify"@,
            volume: 65,
            is_muted: false,
        },
    ]
}

/// One entry of the degraded lists.
fn degraded_session(process_id: u32, process_name: &str, display_name: &str, volume: u32) -> (r:
    AudioSession)
    ensures
        r@ == (AudioSessionView {
            process_id,
            process_name: process_name@,
            display_name: display_name@,
            volume,
            is_muted: false,
        }),
{
    let mut name = String::new();
    name.append(process_name);
    let mut display = String::new();
    display.append(display_name);
    AudioSession { process_id, process_name: name, display_name: display, volume, is_muted: false }
}

/// The session list a platform backend hands out, given what its enumeration
/// produced: the enumerated sessions when there are any; the master entry
/// alone when enumeration found nothing; and the fixed degraded list when
/// enumeration failed, so that the pipeline keeps working without the
/// platform.
pub fn sessions_or_degraded(fetched: Result<Vec<AudioSession>, String>) -> (r: Vec<AudioSession>)
    ensures
        match fetched {
            Ok(v) => if v@.len() > 0 {
                r.deep_view() == v.deep_view()
            } else {
                r.deep_view() == seq![spec_master_only_session()]
            },
            Err(_) => r.deep_view() == spec_degraded_sessions(),
        },
{
    match fetched {
        Ok(v) => {
            if v.len() > 0 {
                v
            } else {
                let mut r: Vec<AudioSession> = Vec::new();
                r.push(degraded_session(0, "Master", "Master Volume", 75));
                proof {
                    assert(r.deep_view() =~= seq![spec_master_only_session()]);
                }
                r
            }
        },
        Err(_) => {
            let mut r: Vec<AudioSession> = Vec::new();
            r.push(degraded_session(0, "Master", "Master Volume", 75));
            r.push(degraded_session(1234, "chrome.exe", "Google Chrome", 50));
            r.push(degraded_session(5678, "spotify.exe", "Spotify", 65));
            proof {
                assert(r.deep_view() =~= spec_degraded_sessions());
            }
            r
        },
    }
}

} // verus!
