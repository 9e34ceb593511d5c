use dropair::settings::{
    clamp_sensitivity, default_device_name, generate_device_id, AppSettings, SettingsStore,
    ShelfFrame,
};
use std::cell::Cell;

fn frame(x: f64, y: f64, width: f64, height: f64) -> ShelfFrame {
    ShelfFrame { x: x.to_bits(), y: y.to_bits(), width: width.to_bits(), height: height.to_bits() }
}

#[test]
fn clamps_sensitivity_to_supported_range() {
    assert_eq!(clamp_sensitivity(0), 1);
    assert_eq!(clamp_sensitivity(3), 3);
    assert_eq!(clamp_sensitivity(9), 5);
}

#[test]
fn rejects_invalid_shelf_frames() {
    assert!(!frame(0.0, 0.0, f64::NAN, 130.0).is_valid());
}

#[test]
fn shelf_frame_validity_follows_f64_rules() {
    assert!(frame(10.0, -20.5, 150.0, 130.0).is_valid());
    assert!(frame(-0.0, 0.0, f64::MIN_POSITIVE / 2.0, 1.0).is_valid());
    assert!(!frame(f64::INFINITY, 0.0, 150.0, 130.0).is_valid());
    assert!(!frame(0.0, f64::NEG_INFINITY, 150.0, 130.0).is_valid());
    assert!(!frame(0.0, 0.0, 0.0, 130.0).is_valid());
    assert!(!frame(0.0, 0.0, -0.0, 130.0).is_valid());
    assert!(!frame(0.0, 0.0, 150.0, -1.0).is_valid());
    assert!(!frame(0.0, 0.0, 150.0, f64::INFINITY).is_valid());
}

#[test]
fn shelf_frames_compare_as_f64() {
    assert!(frame(0.0, 5.0, 150.0, 130.0).same_frame(&frame(-0.0, 5.0, 150.0, 130.0)));
    assert!(!frame(0.0, 5.0, 150.0, 130.0).same_frame(&frame(0.0, 5.5, 150.0, 130.0)));
    assert!(!frame(f64::NAN, 5.0, 150.0, 130.0).same_frame(&frame(f64::NAN, 5.0, 150.0, 130.0)));
}

#[test]
fn default_settings_have_shake_on_at_middle_sensitivity() {
    let s = AppSettings::default();
    assert!(s.shake_enabled);
    assert_eq!(s.shake_sensitivity, 3);
    assert!(s.shelf_frame.is_none());
    assert!(s.device_id.is_empty());
    assert!(s.device_name.is_empty());
}

#[test]
fn load_normalizes_and_saves_a_new_identity_once() {
    let mut stored = AppSettings::default();
    stored.shake_sensitivity = 9;
    stored.shelf_frame = Some(frame(0.0, 0.0, f64::NAN, 130.0));
    let (store, needs_save) = SettingsStore::load(
        "/config/settings.json".to_string(),
        stored,
        "42-ff".to_string(),
        "Desk".to_string(),
    );
    assert!(needs_save);
    let saves = Cell::new(0);
    let r = store.save_with(|path: &String, s: &AppSettings| {
        assert_eq!(path, "/config/settings.json");
        assert_eq!(s.device_id, "42-ff");
        saves.set(saves.get() + 1);
        Err("disk full".to_string())
    });
    assert_eq!(r.unwrap_err(), "disk full");
    assert_eq!(saves.get(), 1);
    let s = store.settings();
    assert_eq!(s.shake_sensitivity, 5);
    assert!(s.shelf_frame.is_none());
    assert_eq!(s.device_id, "42-ff");
    assert_eq!(s.device_name, "Desk");
}

#[test]
fn load_keeps_a_stored_identity_without_saving() {
    let mut stored = AppSettings::default();
    stored.device_id = "old-id".to_string();
    stored.device_name = "Laptop".to_string();
    stored.shake_sensitivity = 0;
    stored.shelf_frame = Some(frame(1.0, 2.0, 150.0, 130.0));
    let (store, needs_save) =
        SettingsStore::load("p".to_string(), stored, "new-id".to_string(), "New".to_string());
    assert!(!needs_save);
    let s = store.settings();
    assert_eq!(s.device_id, "old-id");
    assert_eq!(s.device_name, "Laptop");
    assert_eq!(s.shake_sensitivity, 1);
    assert!(s.shelf_frame.is_some());
}

fn store_with_identity() -> SettingsStore {
    let mut stored = AppSettings::default();
    stored.device_id = "id".to_string();
    stored.device_name = "name".to_string();
    SettingsStore::load("p".to_string(), stored, String::new(), String::new()).0
}

#[test]
fn failed_save_puts_the_setting_back() {
    let mut store = store_with_identity();
    let r = store.set_shake_enabled(false, |_: &String, s: &AppSettings| {
        assert!(!s.shake_enabled);
        Err("read-only".to_string())
    });
    assert_eq!(r.unwrap_err(), "read-only");
    assert!(store.settings().shake_enabled);

    let r = store.set_shake_sensitivity(4, |_: &String, _: &AppSettings| Err("no".to_string()));
    assert!(r.is_err());
    assert_eq!(store.settings().shake_sensitivity, 3);
}

#[test]
fn successful_save_keeps_the_new_setting() {
    let mut store = store_with_identity();
    let r = store.set_shake_enabled(false, |_: &String, _: &AppSettings| Ok(()));
    assert!(!r.unwrap().shake_enabled);
    assert!(!store.settings().shake_enabled);

    let r = store.set_shake_sensitivity(200, |_: &String, s: &AppSettings| {
        assert_eq!(s.shake_sensitivity, 5);
        Ok(())
    });
    assert_eq!(r.unwrap().shake_sensitivity, 5);
    assert_eq!(store.settings().shake_sensitivity, 5);
}

#[test]
fn shelf_frame_is_saved_only_when_it_changes() {
    let mut store = store_with_identity();
    let saves = Cell::new(0);
    let count = |_: &String, _: &AppSettings| {
        saves.set(saves.get() + 1);
        Ok(())
    };
    assert!(store.set_shelf_frame(frame(0.0, 0.0, -5.0, 130.0), count).is_ok());
    assert_eq!(saves.get(), 0);
    assert!(store.settings().shelf_frame.is_none());

    assert!(store.set_shelf_frame(frame(0.0, 0.0, 150.0, 130.0), count).is_ok());
    assert_eq!(saves.get(), 1);
    assert!(store.set_shelf_frame(frame(-0.0, 0.0, 150.0, 130.0), count).is_ok());
    assert_eq!(saves.get(), 1);

    let r = store.set_shelf_frame(frame(5.0, 0.0, 150.0, 130.0), |_: &String, _: &AppSettings| {
        Err("busy".to_string())
    });
    assert_eq!(r.unwrap_err(), "busy");
    assert_eq!(store.settings().shelf_frame.unwrap().x, 0.0f64.to_bits());
}

#[test]
fn device_id_is_process_id_and_hex_time() {
    assert_eq!(generate_device_id(1234, 255), "1234-ff");
    assert_eq!(generate_device_id(0, 0), "0-0");
    assert_eq!(generate_device_id(7, 0x1a2b3c), "7-1a2b3c");
}

#[test]
fn device_name_prefers_computer_name_then_host_name() {
    assert_eq!(default_device_name(Some("PC".to_string()), Some("host".to_string())), "PC");
    assert_eq!(default_device_name(None, Some("host".to_string())), "host");
    assert_eq!(default_device_name(None, None), "DropAir");
}
