use sc_controls::{
    generate_options_xml, parse_actionmaps_options, ActionmapsControlOption, ActionmapsCurvePoint,
    ActionmapsDeviceOptions,
};

fn block(device_type: &str, instance: &str, product: &str, options: Vec<ActionmapsControlOption>) -> ActionmapsDeviceOptions {
    ActionmapsDeviceOptions {
        device_type: device_type.to_string(),
        instance: instance.to_string(),
        product: product.to_string(),
        options,
    }
}

fn option(name: &str, attributes: &[(&str, &str)], points: &[(&str, &str)]) -> ActionmapsControlOption {
    ActionmapsControlOption {
        name: name.to_string(),
        attributes: attributes.iter().map(|(k, v)| (k.to_string(), v.to_string())).collect(),
        curve_points: points
            .iter()
            .map(|(i, o)| ActionmapsCurvePoint { in_val: i.to_string(), out_val: o.to_string() })
            .collect(),
    }
}

#[test]
fn self_closing_options_yield_one_empty_device() {
    let devices = parse_actionmaps_options("<options type=\"joystick\" instance=\"1\"/>").unwrap();
    assert_eq!(devices, vec![block("joystick", "1", "", vec![])]);
    assert_eq!(devices[0].device_type, "joystick");
    assert_eq!(devices[0].instance, "1");
    assert_eq!(devices[0].product, "");
    assert_eq!(devices[0].options.len(), 0);
}

#[test]
fn self_closing_options_equal_open_close_without_children() {
    let closed = parse_actionmaps_options("<options type=\"joystick\" instance=\"1\"/>").unwrap();
    let open = parse_actionmaps_options("<options type=\"joystick\" instance=\"1\"></options>").unwrap();
    assert_eq!(closed, open);
    assert_eq!(open, vec![block("joystick", "1", "", vec![])]);
}

#[test]
fn option_with_curve_is_read_in_order() {
    let xml = "<options type=\"joystick\" instance=\"1\" Product=\"VKB Gladiator NXT\"><flight_move_pitch invert=\"1\"><nonlinearity_curve><point in=\"0\" out=\"0\"/><point in=\"100\" out=\"50\"/></nonlinearity_curve></flight_move_pitch></options>";
    let devices = parse_actionmaps_options(xml).unwrap();
    assert_eq!(
        devices,
        vec![block(
            "joystick",
            "1",
            "VKB Gladiator NXT",
            vec![option("flight_move_pitch", &[("invert", "1")], &[("0", "0"), ("100", "50")])],
        )]
    );
}

#[test]
fn whole_document_is_read_in_document_order() {
    let xml = "<?xml version=\"1.0\" encoding=\"utf-8\"?>\n\
<ActionMaps version=\"1\" optionsVersion=\"2\">\n\
 <ActionProfiles version=\"1\" profileName=\"default\">\n\
  <!-- devices -->\n\
  <deviceoptions name=\"stick\"><option input=\"x\" deadzone=\"0.1\"/></deviceoptions>\n\
  <options type=\"keyboard\" instance=\"1\" Product=\"Keyboard  {6F1D2B61-D5A0-11CF-BFC7-444553540000}\"/>\n\
  <options type=\"gamepad\" instance=\"1\" Product=\"Controller (Gamepad)\">\n\
   <flight_view_pitch exponent=\"1.5\" invert=\"0\"/>\n\
  </options>\n\
  <options type=\"joystick\" instance=\"2\" Product=\"VKB\">\n\
   <flight_move_pitch invert=\"1\">\n\
    <nonlinearity_curve>\n\
     <point in=\"0\" out=\"0\"/>\n\
     <point in=\"0.5\" out=\"0.25\"/>\n\
     <point in=\"1\" out=\"1\"/>\n\
    </nonlinearity_curve>\n\
   </flight_move_pitch>\n\
   <flight_move_yaw invert=\"0\"/>\n\
  </options>\n\
  <modifiers />\n\
  <actionmap name=\"spaceship_general\"><action name=\"v_exit\"><rebind input=\"js1_button1\"/></action></actionmap>\n\
 </ActionProfiles>\n\
</ActionMaps>\n";
    let devices = parse_actionmaps_options(xml).unwrap();
    assert_eq!(
        devices,
        vec![
            block("keyboard", "1", "Keyboard  {6F1D2B61-D5A0-11CF-BFC7-444553540000}", vec![]),
            block(
                "gamepad",
                "1",
                "Controller (Gamepad)",
                vec![option("flight_view_pitch", &[("exponent", "1.5"), ("invert", "0")], &[])],
            ),
            block(
                "joystick",
                "2",
                "VKB",
                vec![
                    option(
                        "flight_move_pitch",
                        &[("invert", "1")],
                        &[("0", "0"), ("0.5", "0.25"), ("1", "1")],
                    ),
                    option("flight_move_yaw", &[("invert", "0")], &[]),
                ],
            ),
        ]
    );
}

#[test]
fn no_devices_is_not_an_error() {
    assert_eq!(parse_actionmaps_options("").unwrap(), vec![]);
    assert_eq!(parse_actionmaps_options("just text").unwrap(), vec![]);
    assert_eq!(parse_actionmaps_options("<ActionMaps><a b=\"c\"/></ActionMaps>").unwrap(), vec![]);
}

#[test]
fn missing_attributes_give_empty_fields() {
    let devices = parse_actionmaps_options("<options instance=\"4\"/><options/>").unwrap();
    assert_eq!(devices, vec![block("", "4", "", vec![]), block("", "", "", vec![])]);
}

#[test]
fn other_attributes_of_options_are_passed_over() {
    let devices =
        parse_actionmaps_options("<options extra=\"x\" Product=\"P\" type=\"joystick\" product=\"lower\" instance=\"9\"/>")
            .unwrap();
    assert_eq!(devices, vec![block("joystick", "9", "P", vec![])]);
}

#[test]
fn elements_outside_a_device_are_not_options() {
    let xml = "<root><flight_move_pitch invert=\"1\"/><options type=\"joystick\" instance=\"1\"><a x=\"1\"/></options><b y=\"2\"/></root>";
    let devices = parse_actionmaps_options(xml).unwrap();
    assert_eq!(devices, vec![block("joystick", "1", "", vec![option("a", &[("x", "1")], &[])])]);
}

#[test]
fn option_attributes_are_kept_raw_and_in_order() {
    let xml = "<options type=\"joystick\" instance=\"1\"><opt z=\"&amp;1\" a='two' m=\" 3 \"/></options>";
    let devices = parse_actionmaps_options(xml).unwrap();
    assert_eq!(
        devices[0].options,
        vec![option("opt", &[("z", "&amp;1"), ("a", "two"), ("m", " 3 ")], &[])]
    );
}

#[test]
fn text_beyond_ascii_is_kept() {
    let xml = "<options type=\"joystick\" instance=\"1\" Product=\"Джойстик é\"><ось invert=\"да\"/></options>";
    let devices = parse_actionmaps_options(xml).unwrap();
    assert_eq!(
        devices,
        vec![block("joystick", "1", "Джойстик é", vec![option("ось", &[("invert", "да")], &[])])]
    );
}

#[test]
fn point_outside_a_curve_is_an_option() {
    let xml = "<options type=\"joystick\" instance=\"1\"><point in=\"1\" out=\"2\"/></options>";
    let devices = parse_actionmaps_options(xml).unwrap();
    assert_eq!(
        devices,
        vec![block("joystick", "1", "", vec![option("point", &[("in", "1"), ("out", "2")], &[])])]
    );
}

#[test]
fn points_without_coordinates_have_empty_values() {
    let xml = "<options type=\"joystick\" instance=\"1\"><o><nonlinearity_curve><point in=\"7\"/><point out=\"8\"/><point/></nonlinearity_curve></o></options>";
    let devices = parse_actionmaps_options(xml).unwrap();
    assert_eq!(
        devices[0].options,
        vec![option("o", &[], &[("7", ""), ("", "8"), ("", "")])]
    );
}

#[test]
fn device_left_open_is_not_collected() {
    let devices =
        parse_actionmaps_options("<options type=\"keyboard\" instance=\"1\"/><options type=\"joystick\" instance=\"1\">")
            .unwrap();
    assert_eq!(devices, vec![block("keyboard", "1", "", vec![])]);
}

#[test]
fn mismatched_end_tag_is_a_syntax_error() {
    let err = parse_actionmaps_options("<options type=\"joystick\" instance=\"1\"><a></b></options>").unwrap_err();
    assert_eq!(
        err,
        "XML parse error: ill-formed document: expected `</a>`, but `</b>` was found"
    );
}

#[test]
fn stray_end_tag_is_a_syntax_error() {
    let err = parse_actionmaps_options("</options>").unwrap_err();
    assert_eq!(
        err,
        "XML parse error: ill-formed document: close tag `</options>` does not match any open tag"
    );
}

#[test]
fn unclosed_tag_is_a_syntax_error() {
    let err = parse_actionmaps_options("<options type=\"joystick\"").unwrap_err();
    assert_eq!(
        err,
        "XML parse error: syntax error: tag not closed: `>` not found before end of input"
    );
}

#[test]
fn error_after_a_complete_device_returns_no_devices() {
    let result = parse_actionmaps_options("<options type=\"keyboard\" instance=\"1\"/><!-- never closed");
    let err = result.unwrap_err();
    assert!(err.starts_with("XML parse error: "));
    assert!(err.len() > "XML parse error: ".len());
}

#[test]
fn unquoted_attribute_value_is_a_syntax_error() {
    let err = parse_actionmaps_options("<options type=joystick instance=\"1\"/>").unwrap_err();
    assert_eq!(
        err,
        "XML parse error: error while parsing attribute: position 13: attribute value must be enclosed in `\"` or `'`"
    );
}

#[test]
fn repeated_attribute_is_a_syntax_error() {
    let err = parse_actionmaps_options("<options type=\"a\" type=\"b\"/>").unwrap_err();
    assert_eq!(
        err,
        "XML parse error: error while parsing attribute: position 17: duplicated attribute, previous declaration at position 8"
    );
}

#[test]
fn attribute_without_a_value_is_a_syntax_error() {
    let xml = "<options type=\"joystick\" instance=\"1\"><flight_move_pitch invert/></options>";
    let err = parse_actionmaps_options(xml).unwrap_err();
    assert_eq!(
        err,
        "XML parse error: error while parsing attribute: position 24: attribute key must be directly followed by `=` or space"
    );
}

#[test]
fn malformed_attribute_outside_a_device_is_a_syntax_error() {
    let xml = "<ActionMaps version=1><options type=\"joystick\" instance=\"1\"/></ActionMaps>";
    let err = parse_actionmaps_options(xml).unwrap_err();
    assert_eq!(
        err,
        "XML parse error: error while parsing attribute: position 19: attribute value must be enclosed in `\"` or `'`"
    );
}

#[test]
fn first_malformed_attribute_comes_before_a_later_lexer_error() {
    let xml = "<options type=\"joystick\" instance=\"1\"><a b=c/></wrong>";
    let err = parse_actionmaps_options(xml).unwrap_err();
    assert_eq!(
        err,
        "XML parse error: error while parsing attribute: position 4: attribute value must be enclosed in `\"` or `'`"
    );
}

#[test]
fn lexer_error_comes_before_a_later_malformed_attribute() {
    let err = parse_actionmaps_options("<a></b><options type=joystick/>").unwrap_err();
    assert_eq!(err, "XML parse error: ill-formed document: expected `</a>`, but `</b>` was found");
}

#[test]
fn generated_block_reads_back_as_the_same_device() {
    let device = block(
        "joystick",
        "2",
        "VKB Gladiator NXT",
        vec![
            option("flight_move_pitch", &[("invert", "1"), ("exponent", "1.5")], &[("0", "0"), ("100", "50")]),
            option("flight_move_yaw", &[("invert", "0")], &[]),
            option("flight_move_roll", &[], &[("0.5", "0.25")]),
        ],
    );
    let text = generate_options_xml(&device);
    assert_eq!(parse_actionmaps_options(&text).unwrap(), vec![device]);
    let bare = block("keyboard", "1", "", vec![]);
    assert_eq!(parse_actionmaps_options(&generate_options_xml(&bare)).unwrap(), vec![bare]);
}
