//! The stub audio backend: fixed data for platforms without a binding, and
//! the degraded fallback.  It never fails.

use crate::audio::AudioManager;
use crate::types::{AudioSession, AudioSessionView};
use vstd::prelude::*;

verus! {

/// The fixed session list the stub serves: the master-volume entry first,
/// then a handful of familiar applications.
pub open spec fn spec_stub_sessions() -> Seq<AudioSessionView> {
    seq![
        AudioSessionView {
            process_id: 0,
            process_name: "Master"@,
            display_name: "Master Volume"@,
            volume: 75,
            is_muted: false,
        },
        AudioSessionView {
            process_id: 1234,
            process_name: "Google Chrome"@,
            display_name: "Google Chrome"@,
            volume: 50,
            is_muted: false,
        },
        AudioSessionView {
            process_id: 5678,
            process_name: "Spotify"@,
            display_name: "Spotify"@,
            volume: 65,
            is_muted: false,
        },
        AudioSessionView {
            process_id: 9012,
            process_name: "Discord"@,
            display_name: "Discord"@,
            volume: 80,
            is_muted: false,
        },
        AudioSessionView {
            process_id: 3456,
            process_name: "Firefox"@,
            display_name: "Mozilla Firefox"@,
            volume: 45,
            is_muted: false,
        },
        AudioSessionView {
            process_id: 7890,
            process_name: "VLC"@,
            display_name: "VLC Media Player"@,
            volume: 90,
            is_muted: false,
        },
    ]
}

/// An audio backend that serves fixed data and accepts every command.
pub struct StubAudioManager;

impl StubAudioManager {
    /// A stub backend.
    pub fn new() -> (r: StubAudioManager) {
        StubAudioManager
    }
}

/// One fixed session entry.
fn stub_session(process_id: u32, process_name: &str, display_name: &str, volume: u32) -> (r:
    AudioSession)
    ensures
        r@ == (AudioSessionView {
            process_id,
            process_name: process_name@,
            display_name: display_name@,
            volume,
            is_muted: false,
        }),
{
    AudioSession {
        process_id,
        process_name: String::from_str(process_name),
        display_name: String::from_str(display_name),
        volume,
        is_muted: false,
    }
}

impl AudioManager for StubAudioManager {
    fn get_audio_sessions(&self) -> (r: Result<Vec<AudioSession>, String>)
        ensures
            r matches Ok(v) && v.deep_view() == spec_stub_sessions(),
    {
        let mut v: Vec<AudioSession> = Vec::new();
        v.push(stub_session(0, "Master", "Master Volume", 75));
        v.push(stub_session(1234, "Google Chrome", "Google Chrome", 50));
        v.push(stub_session(5678, "Spotify", "Spotify", 65));
        v.push(stub_session(9012, "Discord", "Discord", 80));
        v.push(stub_session(3456, "Firefox", "Mozilla Firefox", 45));
        v.push(stub_session(7890, "VLC", "VLC Media Player", 90));
        proof {
            assert(v.deep_view() =~= spec_stub_sessions());
        }
        Ok(v)
    }

    fn set_app_volume(&self, process_id: u32, volume: u32) -> (r: Result<(), String>)
        ensures
            r is Ok,
    {
        Ok(())
    }

    fn set_master_volume(&self, volume: u32) -> (r: Result<(), String>)
        ensures
            r is Ok,
    {
        Ok(())
    }

    fn get_master_volume(&self) -> (r: Result<u32, String>)
        ensures
            r == Ok::<u32, String>(50u32),
    {
        Ok(50)
    }
}

impl Default for StubAudioManager {
    fn default() -> (r: StubAudioManager) {
        StubAudioManager::new()
    }
}

} // verus!
