use sc_controls::{
    controls_to_actionmaps, convert_options_to_actionmaps, generate_options_xml,
    parse_actionmaps_options, ActionmapsControlOption, ActionmapsDeviceOptions,
    ControlOptionSettings, ControlsFile, CurveData, CurvePoint, DeviceInstanceSettings, Scalar,
};

fn num(value: f64) -> Scalar {
    Scalar { bits: value.to_bits() }
}

fn only_invert(invert: bool) -> ControlOptionSettings {
    ControlOptionSettings { invert: Some(invert), curve_mode: None, exponent: None, curve: None }
}

fn unset() -> ControlOptionSettings {
    ControlOptionSettings { invert: None, curve_mode: None, exponent: None, curve: None }
}

fn curve_only() -> ControlOptionSettings {
    ControlOptionSettings {
        invert: None,
        curve_mode: Some("curve".to_string()),
        exponent: Some(num(2.0)),
        curve: Some(CurveData {
            points: vec![
                CurvePoint { input: num(0.0), output: num(0.0) },
                CurvePoint { input: num(1.0), output: num(0.5) },
            ],
        }),
    }
}

fn instance(product: Option<&str>, options: Vec<(&str, ControlOptionSettings)>) -> DeviceInstanceSettings {
    DeviceInstanceSettings {
        product: product.map(|p| p.to_string()),
        options: options.into_iter().map(|(n, o)| (n.to_string(), o)).collect(),
    }
}

fn blank_file() -> ControlsFile {
    ControlsFile::with_timestamp("Test Profile".to_string(), "2024-01-01T00:00:00+00:00".to_string())
}

fn invert_option(name: &str, value: &str) -> ActionmapsControlOption {
    ActionmapsControlOption {
        name: name.to_string(),
        attributes: vec![("invert".to_string(), value.to_string())],
        curve_points: vec![],
    }
}

#[test]
fn invert_becomes_one_or_zero() {
    let options = vec![
        ("flight_move_pitch".to_string(), only_invert(true)),
        ("flight_move_yaw".to_string(), only_invert(false)),
    ];
    assert_eq!(
        convert_options_to_actionmaps(&options),
        vec![invert_option("flight_move_pitch", "1"), invert_option("flight_move_yaw", "0")]
    );
}

#[test]
fn inert_fields_never_cross() {
    let options = vec![("flight_move_pitch".to_string(), curve_only())];
    assert_eq!(convert_options_to_actionmaps(&options), vec![]);

    let mut file = blank_file();
    file.devices.joystick = Some(vec![(
        "1".to_string(),
        instance(Some("VKB Gladiator NXT"), vec![("flight_move_pitch", curve_only())]),
    )]);
    assert_eq!(controls_to_actionmaps(&file), vec![]);
}

#[test]
fn inert_fields_do_not_change_what_invert_gives() {
    let mut with_curve = curve_only();
    with_curve.invert = Some(true);
    let options = vec![("flight_move_pitch".to_string(), with_curve)];
    assert_eq!(
        convert_options_to_actionmaps(&options),
        vec![invert_option("flight_move_pitch", "1")]
    );
}

#[test]
fn silent_device_is_absent_from_the_bridge() {
    let mut file = blank_file();
    file.devices.keyboard = Some(instance(None, vec![("a", unset()), ("b", unset())]));
    file.devices.gamepad = Some(instance(None, vec![("c", only_invert(true))]));
    file.devices.joystick = Some(vec![
        ("1".to_string(), instance(Some("Left"), vec![("d", unset())])),
        ("2".to_string(), instance(Some("Right"), vec![("e", only_invert(false))])),
    ]);
    let blocks = controls_to_actionmaps(&file);
    assert_eq!(
        blocks,
        vec![
            ActionmapsDeviceOptions {
                device_type: "gamepad".to_string(),
                instance: "1".to_string(),
                product: String::new(),
                options: vec![invert_option("c", "1")],
            },
            ActionmapsDeviceOptions {
                device_type: "joystick".to_string(),
                instance: "2".to_string(),
                product: "Right".to_string(),
                options: vec![invert_option("e", "0")],
            },
        ]
    );
}

#[test]
fn devices_come_out_keyboard_gamepad_joysticks() {
    let mut file = blank_file();
    file.devices.joystick = Some(vec![
        ("7".to_string(), instance(Some("Seven"), vec![("j7", only_invert(true))])),
        ("3".to_string(), instance(None, vec![("j3", only_invert(false))])),
    ]);
    file.devices.gamepad = Some(instance(Some("Pad"), vec![("g", only_invert(true))]));
    file.devices.keyboard = Some(instance(Some("Keys"), vec![("k", only_invert(false))]));
    let blocks = controls_to_actionmaps(&file);
    let heads: Vec<(&str, &str, &str)> = blocks
        .iter()
        .map(|b| (b.device_type.as_str(), b.instance.as_str(), b.product.as_str()))
        .collect();
    assert_eq!(
        heads,
        vec![
            ("keyboard", "1", "Keys"),
            ("gamepad", "1", "Pad"),
            ("joystick", "7", "Seven"),
            ("joystick", "3", ""),
        ]
    );
}

#[test]
fn empty_profile_gives_no_blocks() {
    assert_eq!(controls_to_actionmaps(&blank_file()), vec![]);
    let mut file = blank_file();
    file.devices.joystick = Some(vec![]);
    file.devices.keyboard = Some(instance(None, vec![]));
    assert_eq!(controls_to_actionmaps(&file), vec![]);
}

#[test]
fn mixed_options_keep_only_those_with_invert() {
    let mut file = blank_file();
    file.devices.keyboard = Some(instance(
        None,
        vec![("a", unset()), ("b", only_invert(true)), ("c", curve_only()), ("d", only_invert(false))],
    ));
    let blocks = controls_to_actionmaps(&file);
    assert_eq!(blocks.len(), 1);
    assert_eq!(blocks[0].options, vec![invert_option("b", "1"), invert_option("d", "0")]);
}

#[test]
fn regenerated_option_carries_invert_and_no_curve() {
    let source = "<options type=\"joystick\" instance=\"1\" Product=\"VKB Gladiator NXT\"><flight_move_pitch invert=\"1\"><nonlinearity_curve><point in=\"0\" out=\"0\"/><point in=\"100\" out=\"50\"/></nonlinearity_curve></flight_move_pitch></options>";
    let parsed = parse_actionmaps_options(source).unwrap();
    assert_eq!(parsed.len(), 1);
    assert_eq!(parsed[0].options[0].curve_points.len(), 2);

    let mut file = blank_file();
    file.devices.joystick = Some(vec![(
        "1".to_string(),
        instance(Some("VKB Gladiator NXT"), vec![("flight_move_pitch", only_invert(true))]),
    )]);
    let bridged = controls_to_actionmaps(&file);
    assert_eq!(bridged.len(), 1);
    assert_eq!(bridged[0].options, vec![invert_option("flight_move_pitch", "1")]);

    let regenerated = generate_options_xml(&bridged[0]);
    assert_eq!(
        regenerated,
        "  <options type=\"joystick\" instance=\"1\" Product=\"VKB Gladiator NXT\">\n   <flight_move_pitch invert=\"1\"/>\n  </options>\n"
    );
    assert!(regenerated.contains("<flight_move_pitch invert=\"1\"/>"));
    assert!(!regenerated.contains("point"));

    let from_source = generate_options_xml(&parsed[0]);
    assert!(from_source.contains("<point in=\"100\" out=\"50\"/>"));
    assert_ne!(regenerated, from_source);
    assert_ne!(bridged, parsed);
}
