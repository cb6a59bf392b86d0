use pc_audio_mixer::serial::{str_contains_ci, SerialManager};
use pc_audio_mixer::types::PortDescriptor;

fn usb_port(name: &str, product: Option<&str>, manufacturer: Option<&str>) -> PortDescriptor {
    PortDescriptor {
        port_name: name.to_string(),
        is_usb: true,
        product: product.map(|s| s.to_string()),
        manufacturer: manufacturer.map(|s| s.to_string()),
    }
}

fn plain_port(name: &str) -> PortDescriptor {
    PortDescriptor {
        port_name: name.to_string(),
        is_usb: false,
        product: None,
        manufacturer: None,
    }
}

#[test]
fn substring_search_ignores_ascii_case() {
    assert!(str_contains_ci("Raspberry Pi Pico", "pico"));
    assert!(str_contains_ci("RP2040 Board", "rp2040"));
    assert!(str_contains_ci("abc", ""));
    assert!(!str_contains_ci("Arduino Uno", "pico"));
    assert!(!str_contains_ci("pic", "pico"));
}

#[test]
fn discovery_matches_usb_product() {
    let ports = vec![
        plain_port("/dev/ttyS0"),
        usb_port("/dev/ttyUSB3", Some("Pico W"), None),
    ];
    let found = SerialManager::find_pico_port(&ports);
    assert_eq!(found.as_deref(), Some("/dev/ttyUSB3"));
}

#[test]
fn discovery_matches_usb_manufacturer() {
    let ports = vec![usb_port("/dev/ttyUSB0", Some("Serial Bridge"), Some("Raspberry Pi Ltd"))];
    assert_eq!(
        SerialManager::find_pico_port(&ports).as_deref(),
        Some("/dev/ttyUSB0")
    );
}

#[test]
fn discovery_matches_name_patterns() {
    let acm = vec![plain_port("/dev/ttyACM0")];
    assert_eq!(
        SerialManager::find_pico_port(&acm).as_deref(),
        Some("/dev/ttyACM0")
    );
    let modem = vec![plain_port("/dev/cu.usbmodem14201")];
    assert_eq!(
        SerialManager::find_pico_port(&modem).as_deref(),
        Some("/dev/cu.usbmodem14201")
    );
    let short_com = vec![plain_port("COM3")];
    assert_eq!(SerialManager::find_pico_port(&short_com).as_deref(), Some("COM3"));
    // A long COM-like name is not taken for the device.
    let long_com = vec![plain_port("COM10000")];
    assert!(SerialManager::find_pico_port(&long_com).is_none());
}

#[test]
fn discovery_returns_first_candidate() {
    let ports = vec![
        plain_port("/dev/ttyS0"),
        usb_port("/dev/ttyACM1", Some("Pico"), None),
        plain_port("/dev/ttyACM2"),
    ];
    assert_eq!(
        SerialManager::find_pico_port(&ports).as_deref(),
        Some("/dev/ttyACM1")
    );
}

#[test]
fn connect_with_no_device_stays_disconnected() {
    let mut mgr = SerialManager::new();
    let ports = vec![plain_port("/dev/ttyS0"), usb_port("/dev/ttyUSB7", Some("Uno"), None)];
    let picked = mgr.connect_start(None, &ports);
    assert!(picked.is_none());
    let status = SerialManager::no_device_status();
    assert!(!status.connected);
    assert!(status.port.is_none());
    assert_eq!(status.error.as_deref(), Some("No Pico device found"));
    assert!(!mgr.is_connected());
}

#[test]
fn connect_prefers_the_named_port() {
    let mut mgr = SerialManager::new();
    let ports = vec![usb_port("/dev/ttyACM0", Some("Pico"), None)];
    let picked = mgr.connect_start(Some("COM9".to_string()), &ports);
    assert_eq!(picked.as_deref(), Some("COM9"));
}

#[test]
fn successful_open_connects_and_records_the_port() {
    let mut mgr = SerialManager::new();
    let status = mgr.connect_finish("COM3".to_string(), None);
    assert!(status.connected);
    assert_eq!(status.port.as_deref(), Some("COM3"));
    assert!(status.error.is_none());
    assert!(mgr.is_connected());
    let snap = mgr.get_status();
    assert!(snap.connected);
    assert_eq!(snap.port.as_deref(), Some("COM3"));
    assert!(snap.error.is_none());
}

#[test]
fn failed_open_reports_the_cause_and_stays_disconnected() {
    let mut mgr = SerialManager::new();
    let status = mgr.connect_finish("COM3".to_string(), Some("permission denied".to_string()));
    assert!(!status.connected);
    assert!(status.port.is_none());
    assert_eq!(
        status.error.as_deref(),
        Some("Failed to connect: permission denied")
    );
    assert!(!mgr.is_connected());
}

#[test]
fn reconnect_tears_down_the_old_connection_first() {
    let mut mgr = SerialManager::new();
    mgr.connect_finish("COM3".to_string(), None);
    assert!(mgr.is_connected());
    let ports = vec![usb_port("/dev/ttyACM0", Some("Pico"), None)];
    let picked = mgr.connect_start(None, &ports);
    // The old connection is gone before the new attempt.
    assert!(!mgr.is_connected());
    assert!(mgr.get_status().port.is_none());
    assert_eq!(picked.as_deref(), Some("/dev/ttyACM0"));
}

#[test]
fn disconnect_clears_the_link() {
    let mut mgr = SerialManager::new();
    mgr.connect_finish("COM4".to_string(), None);
    mgr.disconnect();
    assert!(!mgr.is_connected());
    assert!(mgr.get_status().port.is_none());
}

#[test]
fn port_listing_describes_each_interface() {
    let ports = vec![
        usb_port("COM3", Some("Pico W"), Some("Raspberry Pi")),
        usb_port("COM4", None, Some("Acme")),
        plain_port("/dev/ttyS0"),
    ];
    let infos = SerialManager::list_ports(&ports);
    assert_eq!(infos.len(), 3);
    assert_eq!(infos[0].port_name, "COM3");
    assert_eq!(infos[0].description, "Pico W - Raspberry Pi");
    assert_eq!(infos[1].description, "Unknown - Acme");
    assert_eq!(infos[2].port_name, "/dev/ttyS0");
    assert_eq!(infos[2].description, "Serial Port");
}

#[test]
fn default_link_is_disconnected() {
    let mgr = SerialManager::default();
    assert!(!mgr.is_connected());
    let status = mgr.get_status();
    assert!(!status.connected);
    assert!(status.port.is_none());
    assert!(status.error.is_none());
}
