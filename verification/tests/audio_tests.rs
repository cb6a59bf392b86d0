use pc_audio_mixer::audio::macos_impl::MacOSAudioManager;
use pc_audio_mixer::audio::stub_impl::StubAudioManager;
use pc_audio_mixer::audio::AudioManager;

#[test]
fn stub_serves_master_entry_first() {
    let stub = StubAudioManager::new();
    let sessions = stub.get_audio_sessions().unwrap();
    assert_eq!(sessions.len(), 6);
    assert_eq!(sessions[0].process_id, 0);
    assert_eq!(sessions[0].process_name, "Master");
    assert_eq!(sessions[0].display_name, "Master Volume");
    assert_eq!(sessions[0].volume, 75);
    assert!(!sessions[0].is_muted);
}

#[test]
fn stub_serves_the_fixed_applications() {
    let stub = StubAudioManager::new();
    let sessions = stub.get_audio_sessions().unwrap();
    assert_eq!(sessions[1].process_id, 1234);
    assert_eq!(sessions[1].display_name, "Google Chrome");
    assert_eq!(sessions[2].process_name, "Spotify");
    assert_eq!(sessions[2].volume, 65);
    assert_eq!(sessions[4].process_name, "Firefox");
    assert_eq!(sessions[4].display_name, "Mozilla Firefox");
    assert_eq!(sessions[5].process_id, 7890);
    assert_eq!(sessions[5].volume, 90);
}

#[test]
fn stub_accepts_every_volume_command() {
    let stub = StubAudioManager::new();
    assert!(stub.set_app_volume(1234, 40).is_ok());
    assert!(stub.set_master_volume(80).is_ok());
    assert_eq!(stub.get_master_volume(), Ok(50));
}

#[test]
fn macos_sessions_name_the_running_apps() {
    let running = vec![
        ("Music".to_string(), 101u32),
        ("Spotify".to_string(), 202u32),
    ];
    let sessions = MacOSAudioManager::sessions_from_running(&running);
    assert_eq!(sessions.len(), 2);
    assert_eq!(sessions[0].process_id, 101);
    assert_eq!(sessions[0].process_name, "Music.app");
    assert_eq!(sessions[0].display_name, "Music");
    assert_eq!(sessions[0].volume, 50);
    assert_eq!(sessions[1].process_name, "Spotify.app");
}

#[test]
fn macos_sessions_fall_back_when_nothing_runs() {
    let sessions = MacOSAudioManager::sessions_from_running(&Vec::new());
    assert_eq!(sessions.len(), 1);
    assert_eq!(sessions[0].process_id, 1234);
    assert_eq!(sessions[0].process_name, "System Audio");
}

#[test]
fn macos_app_volume_is_accepted_and_ignored() {
    let mgr = MacOSAudioManager::new();
    assert!(mgr.set_app_volume(101, 30).is_ok());
}

#[test]
fn enumerated_sessions_pass_through_unchanged() {
    let fetched = vec![pc_audio_mixer::types::AudioSession {
        process_id: 9,
        process_name: "app.exe".to_string(),
        display_name: "App".to_string(),
        volume: 30,
        is_muted: true,
    }];
    let r = pc_audio_mixer::audio::sessions_or_degraded(Ok(fetched));
    assert_eq!(r.len(), 1);
    assert_eq!(r[0].process_id, 9);
    assert!(r[0].is_muted);
}

#[test]
fn empty_enumeration_serves_the_master_entry_alone() {
    let r = pc_audio_mixer::audio::sessions_or_degraded(Ok(Vec::new()));
    assert_eq!(r.len(), 1);
    assert_eq!(r[0].process_id, 0);
    assert_eq!(r[0].display_name, "Master Volume");
    assert_eq!(r[0].volume, 75);
}

#[test]
fn failed_enumeration_serves_the_degraded_list() {
    let r = pc_audio_mixer::audio::sessions_or_degraded(Err("backend gone".to_string()));
    assert_eq!(r.len(), 3);
    assert_eq!(r[0].process_id, 0);
    assert_eq!(r[1].process_name, "chrome.exe");
    assert_eq!(r[2].process_name, "spotify.exe");
    assert_eq!(r[2].volume, 65);
}

#[test]
fn default_backends_behave_like_new_ones() {
    let stub = StubAudioManager::default();
    assert_eq!(stub.get_master_volume(), Ok(50));
    let mac = MacOSAudioManager::default();
    assert!(mac.set_app_volume(1, 1).is_ok());
}
