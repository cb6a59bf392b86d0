use pc_audio_mixer::mappings::MappingStore;
use pc_audio_mixer::types::ChannelMapping;

fn app_mapping(channel_id: usize, pid: u32, name: &str) -> ChannelMapping {
    ChannelMapping {
        channel_id,
        is_master: false,
        process_id: Some(pid),
        process_name: Some(name.to_string()),
    }
}

fn master_mapping(channel_id: usize) -> ChannelMapping {
    ChannelMapping {
        channel_id,
        is_master: true,
        process_id: None,
        process_name: None,
    }
}

#[test]
fn set_then_set_same_channel_keeps_only_the_second() {
    let mut store = MappingStore::new();
    store.set(app_mapping(1, 10, "chrome.exe"));
    store.set(app_mapping(1, 20, "spotify.exe"));
    let all = store.get_all();
    let for_channel: Vec<&ChannelMapping> =
        all.iter().filter(|m| m.channel_id == 1).collect();
    assert_eq!(for_channel.len(), 1);
    assert_eq!(for_channel[0].process_id, Some(20));
    assert_eq!(for_channel[0].process_name.as_deref(), Some("spotify.exe"));
}

#[test]
fn set_keeps_other_channels() {
    let mut store = MappingStore::new();
    store.set(app_mapping(1, 10, "chrome.exe"));
    store.set(master_mapping(2));
    store.set(app_mapping(1, 30, "vlc.exe"));
    let all = store.get_all();
    assert_eq!(all.len(), 2);
    assert_eq!(all[0].channel_id, 2);
    assert!(all[0].is_master);
    assert_eq!(all[1].channel_id, 1);
    assert_eq!(all[1].process_id, Some(30));
}

#[test]
fn clear_removes_only_that_channel() {
    let mut store = MappingStore::new();
    store.set(app_mapping(1, 10, "chrome.exe"));
    store.set(master_mapping(2));
    store.clear(1);
    let all = store.get_all();
    assert_eq!(all.len(), 1);
    assert_eq!(all[0].channel_id, 2);
    store.clear(7);
    assert_eq!(store.get_all().len(), 1);
}

#[test]
fn lookup_finds_mapping_by_channel() {
    let mut store = MappingStore::new();
    store.set(app_mapping(3, 77, "game.exe"));
    let found = store.lookup(3).unwrap();
    assert_eq!(found.process_id, Some(77));
    assert!(store.lookup(4).is_none());
}

#[test]
fn mapping_well_formedness_check() {
    assert!(app_mapping(1, 5, "a").is_wf());
    assert!(master_mapping(2).is_wf());
    let bad_channel = app_mapping(0, 5, "a");
    assert!(!bad_channel.is_wf());
    let master_with_pid = ChannelMapping {
        channel_id: 1,
        is_master: true,
        process_id: Some(5),
        process_name: None,
    };
    assert!(!master_with_pid.is_wf());
}

#[test]
fn mixer_channels_project_the_table() {
    let mut store = MappingStore::new();
    store.set(app_mapping(2, 77, "spotify.exe"));
    let channels = store.mixer_channels();
    assert_eq!(channels.len(), 8);
    for (idx, ch) in channels.iter().enumerate() {
        assert_eq!(ch.id, idx + 1);
        assert_eq!(ch.value, 0);
        assert_eq!(ch.is_physical, idx < 3);
    }
    assert_eq!(channels[1].mapped_app.as_deref(), Some("spotify.exe"));
    assert_eq!(channels[1].app_process_id, Some(77));
    assert!(channels[0].mapped_app.is_none());
    assert!(channels[0].app_process_id.is_none());
}
