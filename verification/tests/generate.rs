use sc_controls::{
    generate_options_xml, ActionmapsControlOption, ActionmapsCurvePoint, ActionmapsDeviceOptions,
};

fn gen_device(
    device_type: &str,
    instance: &str,
    product: &str,
    options: Vec<ActionmapsControlOption>,
) -> ActionmapsDeviceOptions {
    ActionmapsDeviceOptions {
        device_type: device_type.to_string(),
        instance: instance.to_string(),
        product: product.to_string(),
        options,
    }
}

fn gen_option(name: &str, attributes: &[(&str, &str)], points: &[(&str, &str)]) -> ActionmapsControlOption {
    ActionmapsControlOption {
        name: name.to_string(),
        attributes: attributes.iter().map(|(k, v)| (k.to_string(), v.to_string())).collect(),
        curve_points: points
            .iter()
            .map(|(i, o)| ActionmapsCurvePoint { in_val: i.to_string(), out_val: o.to_string() })
            .collect(),
    }
}

#[test]
fn device_without_options_self_closes() {
    let xml = generate_options_xml(&gen_device("joystick", "1", "", vec![]));
    assert_eq!(xml, "  <options type=\"joystick\" instance=\"1\"/>\n");
}

#[test]
fn product_is_written_only_when_present() {
    let with = generate_options_xml(&gen_device("joystick", "1", "VKB Gladiator NXT", vec![]));
    assert_eq!(
        with,
        "  <options type=\"joystick\" instance=\"1\" Product=\"VKB Gladiator NXT\"/>\n"
    );
    let without = generate_options_xml(&gen_device("keyboard", "1", "", vec![]));
    assert_eq!(without, "  <options type=\"keyboard\" instance=\"1\"/>\n");
}

#[test]
fn option_without_curve_self_closes() {
    let device = gen_device(
        "joystick",
        "2",
        "VKB Gladiator NXT",
        vec![gen_option("flight_move_pitch", &[("invert", "1")], &[])],
    );
    assert_eq!(
        generate_options_xml(&device),
        "  <options type=\"joystick\" instance=\"2\" Product=\"VKB Gladiator NXT\">\n   <flight_move_pitch invert=\"1\"/>\n  </options>\n"
    );
}

#[test]
fn option_with_curve_is_written_with_fixed_indentation() {
    let device = gen_device(
        "joystick",
        "1",
        "",
        vec![gen_option(
            "flight_move_pitch",
            &[("invert", "1"), ("exponent", "1.5")],
            &[("0", "0"), ("100", "50")],
        )],
    );
    let expected = concat_lines(&[
        "  <options type=\"joystick\" instance=\"1\">",
        "   <flight_move_pitch invert=\"1\" exponent=\"1.5\">",
        "    <nonlinearity_curve>",
        "     <point in=\"0\" out=\"0\"/>",
        "     <point in=\"100\" out=\"50\"/>",
        "    </nonlinearity_curve>",
        "   </flight_move_pitch>",
        "  </options>",
    ]);
    assert_eq!(generate_options_xml(&device), expected);
}

fn concat_lines(lines: &[&str]) -> String {
    let mut text = String::new();
    for line in lines {
        text.push_str(line);
        text.push('\n');
    }
    text
}

#[test]
fn curve_without_attributes_still_opens_the_option() {
    let device = gen_device("gamepad", "1", "", vec![gen_option("x", &[], &[("1", "2")])]);
    let expected = concat_lines(&[
        "  <options type=\"gamepad\" instance=\"1\">",
        "   <x>",
        "    <nonlinearity_curve>",
        "     <point in=\"1\" out=\"2\"/>",
        "    </nonlinearity_curve>",
        "   </x>",
        "  </options>",
    ]);
    assert_eq!(generate_options_xml(&device), expected);
}

#[test]
fn attributes_and_options_keep_their_order() {
    let device = gen_device(
        "joystick",
        "3",
        "",
        vec![
            gen_option("zeta", &[("b", "2"), ("a", "1"), ("c", "3")], &[]),
            gen_option("alpha", &[("invert", "0")], &[]),
        ],
    );
    let expected = concat_lines(&[
        "  <options type=\"joystick\" instance=\"3\">",
        "   <zeta b=\"2\" a=\"1\" c=\"3\"/>",
        "   <alpha invert=\"0\"/>",
        "  </options>",
    ]);
    assert_eq!(generate_options_xml(&device), expected);
}

#[test]
fn values_are_written_verbatim() {
    let device = gen_device(
        "joystick",
        "1",
        "A&B <\"C\">",
        vec![gen_option("opt", &[("k", "x&y")], &[])],
    );
    let expected = concat_lines(&[
        "  <options type=\"joystick\" instance=\"1\" Product=\"A&B <\"C\">\">",
        "   <opt k=\"x&y\"/>",
        "  </options>",
    ]);
    assert_eq!(generate_options_xml(&device), expected);
}

#[test]
fn option_with_nothing_to_say_is_rendered_as_an_empty_tag() {
    let device = gen_device("keyboard", "1", "", vec![gen_option("bare", &[], &[])]);
    let expected = concat_lines(&[
        "  <options type=\"keyboard\" instance=\"1\">",
        "   <bare/>",
        "  </options>",
    ]);
    assert_eq!(generate_options_xml(&device), expected);
}

#[test]
fn generating_twice_gives_identical_text() {
    let devices = vec![
        gen_device("keyboard", "1", "", vec![gen_option("a", &[("invert", "1")], &[])]),
        gen_device("joystick", "2", "Stick", vec![gen_option("b", &[], &[("0", "0"), ("1", "1")])]),
        gen_device("gamepad", "1", "", vec![]),
    ];
    let first: Vec<String> = devices.iter().map(generate_options_xml).collect();
    let second: Vec<String> = devices.iter().map(generate_options_xml).collect();
    assert_eq!(first, second);
    let copies: Vec<String> = devices.clone().iter().map(generate_options_xml).collect();
    assert_eq!(first, copies);
}
