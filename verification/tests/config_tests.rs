use pc_audio_mixer::config::{config_with_mappings, update_settings};
use pc_audio_mixer::types::{AppConfig, ChannelMapping};

#[test]
fn default_config_values() {
    let c = AppConfig::default();
    assert!(c.channel_mappings.is_empty());
    assert!(!c.start_with_windows);
    assert!(c.minimize_to_tray);
    assert!(c.auto_connect);
    assert_eq!(c.theme, "dark");
}

#[test]
fn update_settings_changes_only_the_given_fields() {
    let mut c = AppConfig::default();
    update_settings(&mut c, Some(true), None, None, Some("light".to_string()));
    assert!(c.start_with_windows);
    assert!(c.minimize_to_tray);
    assert!(c.auto_connect);
    assert_eq!(c.theme, "light");
    update_settings(&mut c, None, Some(false), Some(false), None);
    assert!(c.start_with_windows);
    assert!(!c.minimize_to_tray);
    assert!(!c.auto_connect);
    assert_eq!(c.theme, "light");
}

#[test]
fn config_with_mappings_replaces_the_table_and_keeps_settings() {
    let mut c = AppConfig::default();
    update_settings(&mut c, Some(true), None, None, None);
    let table = vec![ChannelMapping {
        channel_id: 1,
        is_master: true,
        process_id: None,
        process_name: None,
    }];
    let doc = config_with_mappings(&c, &table);
    assert_eq!(doc.channel_mappings.len(), 1);
    assert!(doc.channel_mappings[0].is_master);
    assert!(doc.start_with_windows);
    assert_eq!(doc.theme, "dark");
}
