use sc_controls::model::{instances_are_well_formed, names_are_distinct, put_entry};
use sc_controls::{
    ControlOptionSettings, ControlsFile, DeviceInstanceSettings, DeviceSettings, JoystickSettings,
    Scalar, CONTROLS_FILE_VERSION,
};

fn inverted() -> ControlOptionSettings {
    ControlOptionSettings { invert: Some(true), curve_mode: None, exponent: None, curve: None }
}

fn device_with(names: &[&str]) -> DeviceInstanceSettings {
    DeviceInstanceSettings {
        product: None,
        options: names.iter().map(|n| (n.to_string(), inverted())).collect(),
    }
}

#[test]
fn format_version_is_one_point_zero() {
    assert_eq!(CONTROLS_FILE_VERSION, "1.0");
}

#[test]
fn new_profile_has_name_version_and_time() {
    let before = chrono::Utc::now();
    let file = ControlsFile::new("Test Profile".to_string());
    let after = chrono::Utc::now();
    assert_eq!(file.profile_name, "Test Profile");
    assert_eq!(file.version, CONTROLS_FILE_VERSION);
    assert!(file.devices.keyboard.is_none());
    assert!(file.devices.gamepad.is_none());
    assert!(file.devices.joystick.is_none());
    let text = file.last_modified.as_deref().unwrap();
    let stamp = chrono::DateTime::parse_from_rfc3339(text).unwrap();
    assert!(before <= stamp && stamp <= after);
    assert!(text.ends_with("+00:00"));
}

#[test]
fn profile_with_given_time() {
    let file = ControlsFile::with_timestamp("P".to_string(), "2020-02-02T02:02:02+00:00".to_string());
    assert_eq!(file.version, "1.0");
    assert_eq!(file.profile_name, "P");
    assert_eq!(file.last_modified.as_deref(), Some("2020-02-02T02:02:02+00:00"));
    assert!(file.devices.keyboard.is_none());
    assert!(file.devices.gamepad.is_none());
    assert!(file.devices.joystick.is_none());
    assert!(file.is_well_formed());
}

#[test]
fn touch_changes_the_time_and_nothing_else() {
    let mut file = ControlsFile::with_timestamp("P".to_string(), "long ago".to_string());
    file.version = "0.1".to_string();
    file.devices.keyboard = Some(device_with(&["a", "b"]));
    let before = chrono::Utc::now();
    file.touch();
    let after = chrono::Utc::now();
    let stamp = chrono::DateTime::parse_from_rfc3339(file.last_modified.as_deref().unwrap()).unwrap();
    assert!(before <= stamp && stamp <= after);
    assert_eq!(file.version, "0.1");
    assert_eq!(file.profile_name, "P");
    let names: Vec<&str> =
        file.devices.keyboard.as_ref().unwrap().options.iter().map(|(n, _)| n.as_str()).collect();
    assert_eq!(names, vec!["a", "b"]);
    assert!(file.devices.gamepad.is_none());
}

#[test]
fn touch_sets_a_time_where_there_was_none() {
    let mut file = ControlsFile::with_timestamp("P".to_string(), "x".to_string());
    file.last_modified = None;
    file.touch();
    assert!(chrono::DateTime::parse_from_rfc3339(file.last_modified.as_deref().unwrap()).is_ok());
}

#[test]
fn set_last_modified_replaces_the_time_only() {
    let mut file = ControlsFile::with_timestamp("P".to_string(), "first".to_string());
    file.devices.gamepad = Some(device_with(&["g"]));
    file.set_last_modified("second".to_string());
    assert_eq!(file.last_modified.as_deref(), Some("second"));
    assert_eq!(file.profile_name, "P");
    assert_eq!(file.version, "1.0");
    assert_eq!(file.devices.gamepad.as_ref().unwrap().options.len(), 1);
}

#[test]
fn defaults_hold_nothing() {
    let devices = DeviceSettings::default();
    assert!(devices.keyboard.is_none());
    assert!(devices.gamepad.is_none());
    assert!(devices.joystick.is_none());
    assert!(JoystickSettings::default().instances.is_empty());
}

#[test]
fn scalar_keeps_the_bits_of_a_number() {
    let s = Scalar { bits: 1.5f64.to_bits() };
    assert_eq!(s.bits, 0x3FF8_0000_0000_0000);
    assert_eq!(f64::from_bits(s.bits), 1.5);
    assert_eq!(s, Scalar { bits: 1.5f64.to_bits() });
    assert_ne!(s, Scalar { bits: (-1.5f64).to_bits() });
}

#[test]
fn distinct_names_are_told_from_repeated_ones() {
    assert!(names_are_distinct(&device_with(&[]).options));
    assert!(names_are_distinct(&device_with(&["a"]).options));
    assert!(names_are_distinct(&device_with(&["a", "b", "c"]).options));
    assert!(!names_are_distinct(&device_with(&["a", "b", "a"]).options));
    assert!(!names_are_distinct(&device_with(&["a", "a"]).options));
    assert!(!names_are_distinct(&device_with(&["x", "b", "c", "c"]).options));
    assert!(names_are_distinct(&device_with(&["a", "A", "a "]).options));
}

#[test]
fn well_formedness_looks_into_every_mapping() {
    assert!(device_with(&["a", "b"]).is_well_formed());
    assert!(!device_with(&["a", "b", "b"]).is_well_formed());

    let good = vec![("1".to_string(), device_with(&["a"])), ("2".to_string(), device_with(&["a"]))];
    assert!(instances_are_well_formed(&good));
    let same_id = vec![("1".to_string(), device_with(&["a"])), ("1".to_string(), device_with(&["b"]))];
    assert!(!instances_are_well_formed(&same_id));
    let bad_inside = vec![("1".to_string(), device_with(&["a"])), ("2".to_string(), device_with(&["b", "b"]))];
    assert!(!instances_are_well_formed(&bad_inside));

    let mut file = ControlsFile::with_timestamp("P".to_string(), "t".to_string());
    assert!(file.is_well_formed());
    file.devices.keyboard = Some(device_with(&["k", "k"]));
    assert!(!file.is_well_formed());
    file.devices.keyboard = Some(device_with(&["k"]));
    file.devices.gamepad = Some(device_with(&["g", "h", "g"]));
    assert!(!file.devices.is_well_formed());
    file.devices.gamepad = None;
    file.devices.joystick = Some(same_id);
    assert!(!file.is_well_formed());
    file.devices.joystick = Some(good);
    assert!(file.is_well_formed());
}

#[test]
fn setting_an_option_appends_or_replaces_in_place() {
    let mut device = DeviceInstanceSettings::new(Some("VKB Gladiator NXT".to_string()));
    assert_eq!(device.product.as_deref(), Some("VKB Gladiator NXT"));
    assert!(device.options.is_empty());
    assert!(device.is_well_formed());

    device.set_option("flight_move_pitch".to_string(), inverted());
    device.set_option("flight_move_yaw".to_string(), inverted());
    device.set_option("flight_move_roll".to_string(), inverted());
    let off = ControlOptionSettings { invert: Some(false), curve_mode: None, exponent: None, curve: None };
    device.set_option("flight_move_yaw".to_string(), off);

    let entries: Vec<(&str, Option<bool>)> =
        device.options.iter().map(|(n, o)| (n.as_str(), o.invert)).collect();
    assert_eq!(
        entries,
        vec![
            ("flight_move_pitch", Some(true)),
            ("flight_move_yaw", Some(false)),
            ("flight_move_roll", Some(true)),
        ]
    );
    assert!(device.is_well_formed());
    assert_eq!(device.product.as_deref(), Some("VKB Gladiator NXT"));
}

#[test]
fn putting_an_entry_replaces_the_first_of_a_repeated_name() {
    let mut instances = vec![
        ("1".to_string(), device_with(&["a"])),
        ("2".to_string(), device_with(&["b"])),
        ("1".to_string(), device_with(&["c"])),
    ];
    put_entry(&mut instances, "1".to_string(), device_with(&["d", "e"]));
    let shape: Vec<(&str, usize)> = instances.iter().map(|(id, d)| (id.as_str(), d.options.len())).collect();
    assert_eq!(shape, vec![("1", 2), ("2", 1), ("1", 1)]);
    put_entry(&mut instances, "3".to_string(), device_with(&[]));
    let ids: Vec<&str> = instances.iter().map(|(id, _)| id.as_str()).collect();
    assert_eq!(ids, vec!["1", "2", "1", "3"]);
}
