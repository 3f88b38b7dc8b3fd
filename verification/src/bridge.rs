//! From the settings model to the vendor dialect.
//!
//! Only `invert` crosses: the game does not keep curve settings that are
//! written into its file, so `curve_mode`, `exponent` and `curve` stay
//! behind. An option that is left with nothing to say is dropped, and so is
//! a device that is left without options.

use vstd::prelude::*;
use crate::actionmaps::{
    ActionmapsControlOption, ActionmapsCurvePoint, ActionmapsDeviceOptions, ControlOptionText,
    DeviceOptionsText,
};
use crate::model::{
    all_silent, ControlOptionSettings, ControlOptionView, ControlsFile, ControlsFileView,
    DeviceInstanceSettings, DeviceInstanceView, DeviceSettingsView, InstancesView, OptionsView,
};

verus! {

/// `invert` as the vendor writes it.
pub open spec fn invert_text(invert: bool) -> Seq<char> {
    if invert {
        "1"@
    } else {
        "0"@
    }
}

/// The vendor option for one entry of the settings model, before it is
/// decided whether the option is written at all: the `invert` attribute if
/// `invert` is set, and nothing else.
pub open spec fn bridged_option(name: Seq<char>, settings: ControlOptionView) -> ControlOptionText {
    ControlOptionText {
        name,
        attributes: match settings.invert {
            Some(invert) => seq![("invert"@, invert_text(invert))],
            None => Seq::empty(),
        },
        curve_points: Seq::empty(),
    }
}

/// The vendor option for one entry, if it is written.
pub open spec fn emitted_option(entry: (Seq<char>, ControlOptionView)) -> Option<
    ControlOptionText,
> {
    let option = bridged_option(entry.0, entry.1);
    if option.is_emitted() {
        Some(option)
    } else {
        None
    }
}

/// The vendor options of one device, in the order of the entries.
pub open spec fn bridged_options(options: OptionsView) -> Seq<ControlOptionText> {
    options.filter_map(|entry: (Seq<char>, ControlOptionView)| emitted_option(entry))
}

/// The block of one device: a single block if an option of it is written,
/// no block otherwise.
pub open spec fn bridged_device(
    device_type: Seq<char>,
    instance: Seq<char>,
    device: DeviceInstanceView,
) -> Seq<DeviceOptionsText> {
    let options = bridged_options(device.options);
    if options.len() > 0 {
        seq![
            DeviceOptionsText {
                device_type,
                instance,
                product: match device.product {
                    Some(product) => product,
                    None => Seq::empty(),
                },
                options,
            },
        ]
    } else {
        Seq::empty()
    }
}

/// The block of a device that may be absent.
pub open spec fn bridged_single(device_type: Seq<char>, device: Option<DeviceInstanceView>) -> Seq<
    DeviceOptionsText,
> {
    match device {
        Some(device) => bridged_device(device_type, "1"@, device),
        None => Seq::empty(),
    }
}

/// The blocks of the joystick instances, in the order of the instances,
/// each under its own instance id.
pub open spec fn bridged_joysticks(instances: InstancesView) -> Seq<DeviceOptionsText>
    decreases instances.len(),
{
    if instances.len() == 0 {
        Seq::empty()
    } else {
        bridged_joysticks(instances.drop_last()) + bridged_device(
            "joystick"@,
            instances.last().0,
            instances.last().1,
        )
    }
}

/// The device blocks to write for a profile: keyboard, gamepad, then the
/// joysticks.
pub open spec fn actionmaps_of(file: ControlsFileView) -> Seq<DeviceOptionsText> {
    bridged_single("keyboard"@, file.devices.keyboard) + bridged_single(
        "gamepad"@,
        file.devices.gamepad,
    ) + match file.devices.joystick {
        Some(instances) => bridged_joysticks(instances),
        None => Seq::empty(),
    }
}

/// Converts the options of one device, keeping only those with something
/// to write.
pub fn convert_options_to_actionmaps(options: &Vec<(String, ControlOptionSettings)>) -> (result:
    Vec<ActionmapsControlOption>)
    ensures
        result.deep_view() == bridged_options(options.deep_view()),
{
    let ghost source = options.deep_view();
    let mut result: Vec<ActionmapsControlOption> = Vec::new();
    let mut i: usize = 0;
    while i < options.len()
        invariant
            i <= options.len(),
            source == options.deep_view(),
            result.deep_view() == bridged_options(source.take(i as int)),
        decreases options.len() - i,
    {
        let entry = &options[i];
        let mut attributes: Vec<(String, String)> = Vec::new();
        let curve_points: Vec<ActionmapsCurvePoint> = Vec::new();
        match entry.1.invert {
            Some(invert) => {
                let value = if invert {
                    "1"
                } else {
                    "0"
                };
                attributes.push(("invert".to_string(), value.to_string()));
            },
            None => {},
        }
        let opt = ActionmapsControlOption { name: entry.0.clone(), attributes, curve_points };
        proof {
            assert(source.take(i + 1).drop_last() == source.take(i as int));
            assert(opt@.attributes == bridged_option(entry.0@, entry.1@).attributes);
            assert(opt@.curve_points == bridged_option(entry.0@, entry.1@).curve_points);
        }
        if !opt.attributes.is_empty() || !opt.curve_points.is_empty() {
            result.push(opt);
        }
        i += 1;
    }
    proof {
        assert(source.take(i as int) == source);
    }
    result
}

fn push_device(
    result: &mut Vec<ActionmapsDeviceOptions>,
    device_type: &str,
    instance: &str,
    device: &DeviceInstanceSettings,
)
    ensures
        final(result).deep_view() == old(result).deep_view() + bridged_device(
            device_type@,
            instance@,
            device@,
        ),
{
    let options = convert_options_to_actionmaps(&device.options);
    if !options.is_empty() {
        let product = match &device.product {
            Some(product) => product.clone(),
            None => String::new(),
        };
        let block = ActionmapsDeviceOptions {
            device_type: device_type.to_string(),
            instance: instance.to_string(),
            product,
            options,
        };
        result.push(block);
    }
}

/// Converts a profile into the device blocks to write into the vendor file.
pub fn controls_to_actionmaps(controls: &ControlsFile) -> (result: Vec<ActionmapsDeviceOptions>)
    ensures
        result.deep_view() == actionmaps_of(controls@),
{
    let mut result: Vec<ActionmapsDeviceOptions> = Vec::new();

    match &controls.devices.keyboard {
        Some(keyboard) => push_device(&mut result, "keyboard", "1", keyboard),
        None => {},
    }

    match &controls.devices.gamepad {
        Some(gamepad) => push_device(&mut result, "gamepad", "1", gamepad),
        None => {},
    }
    let ghost singles = result.deep_view();
    assert(singles == bridged_single("keyboard"@, controls@.devices.keyboard) + bridged_single(
        "gamepad"@,
        controls@.devices.gamepad,
    ));

    match &controls.devices.joystick {
        Some(joysticks) => {
            let ghost source = joysticks.deep_view();
            let mut i: usize = 0;
            while i < joysticks.len()
                invariant
                    i <= joysticks.len(),
                    source == joysticks.deep_view(),
                    result.deep_view() == singles + bridged_joysticks(source.take(i as int)),
                decreases joysticks.len() - i,
            {
                let entry = &joysticks[i];
                push_device(&mut result, "joystick", entry.0.as_str(), &entry.1);
                proof {
                    assert(source.take(i + 1).drop_last() == source.take(i as int));
                }
                i += 1;
            }
            proof {
                assert(source.take(i as int) == source);
            }
        },
        None => {},
    }
    result
}

/// Inertness: an entry whose `invert` is not set gives an option without
/// attributes and without curve points, whatever its `curve_mode`,
/// `exponent` and `curve` hold, and that option is not written.
pub proof fn lemma_inert_option_is_dropped(name: Seq<char>, settings: ControlOptionView)
    requires
        settings.invert is None,
    ensures
        bridged_option(name, settings).attributes.len() == 0,
        bridged_option(name, settings).curve_points.len() == 0,
        emitted_option((name, settings)) is None,
        bridged_options(seq![(name, settings)]) == Seq::<ControlOptionText>::empty(),
{
    let entries = seq![(name, settings)];
    assert(bridged_options(entries.drop_last()) == Seq::<ControlOptionText>::empty());
}

/// The bridge reads `invert` and nothing else: two entries of one name
/// that agree on `invert` give the same option.
pub proof fn lemma_bridge_reads_only_invert(
    name: Seq<char>,
    a: ControlOptionView,
    b: ControlOptionView,
)
    requires
        a.invert == b.invert,
    ensures
        bridged_option(name, a) == bridged_option(name, b),
        emitted_option((name, a)) == emitted_option((name, b)),
{
}

/// No option of the vendor model that the bridge makes carries a curve
/// point, and each carries exactly the `invert` attribute.
pub proof fn lemma_bridged_options_carry_invert_only(options: OptionsView, k: int)
    requires
        0 <= k < bridged_options(options).len(),
    ensures
        bridged_options(options)[k].curve_points.len() == 0,
        bridged_options(options)[k].attributes.len() == 1,
        bridged_options(options)[k].attributes[0].0 == "invert"@,
        bridged_options(options)[k].attributes[0].1 == "1"@ || bridged_options(
            options,
        )[k].attributes[0].1 == "0"@,
    decreases options.len(),
{
    if options.len() > 0 {
        let rest = bridged_options(options.drop_last());
        if k < rest.len() {
            lemma_bridged_options_carry_invert_only(options.drop_last(), k);
        }
    }
}

/// If no entry says anything, no option is written.
pub proof fn lemma_silent_options_bridge_to_nothing(options: OptionsView)
    requires
        all_silent(options),
    ensures
        bridged_options(options) == Seq::<ControlOptionText>::empty(),
    decreases options.len(),
{
    if options.len() > 0 {
        let rest = options.drop_last();
        assert(all_silent(rest));
        lemma_silent_options_bridge_to_nothing(rest);
    }
}

/// Emptiness filtering, one device: a device whose every option has all
/// four fields unset gives no block.
pub proof fn lemma_silent_device_bridges_to_nothing(
    device_type: Seq<char>,
    instance: Seq<char>,
    device: DeviceInstanceView,
)
    requires
        all_silent(device.options),
    ensures
        bridged_device(device_type, instance, device) == Seq::<DeviceOptionsText>::empty(),
{
    lemma_silent_options_bridge_to_nothing(device.options);
}

/// Every block of a list of joystick instances is a joystick block with an
/// option in it.
pub proof fn lemma_joystick_blocks_have_options(instances: InstancesView, k: int)
    requires
        0 <= k < bridged_joysticks(instances).len(),
    ensures
        bridged_joysticks(instances)[k].device_type == "joystick"@,
        bridged_joysticks(instances)[k].options.len() > 0,
    decreases instances.len(),
{
    if instances.len() > 0 {
        let rest = bridged_joysticks(instances.drop_last());
        if k < rest.len() {
            lemma_joystick_blocks_have_options(instances.drop_last(), k);
        }
    }
}

/// No block that the bridge gives is empty: each is the block of a
/// keyboard, a gamepad or a joystick, and each holds an option.
pub proof fn lemma_bridged_blocks_have_options(file: ControlsFileView, k: int)
    requires
        0 <= k < actionmaps_of(file).len(),
    ensures
        actionmaps_of(file)[k].options.len() > 0,
        actionmaps_of(file)[k].device_type == "keyboard"@ || actionmaps_of(file)[k].device_type
            == "gamepad"@ || actionmaps_of(file)[k].device_type == "joystick"@,
{
    let keyboard = bridged_single("keyboard"@, file.devices.keyboard);
    let gamepad = bridged_single("gamepad"@, file.devices.gamepad);
    if k >= keyboard.len() + gamepad.len() {
        lemma_joystick_blocks_have_options(
            file.devices.joystick->0,
            k - keyboard.len() - gamepad.len(),
        );
    }
}

/// The blocks of a list of joystick instances are the blocks of its front
/// part followed by the blocks of its back part.
pub proof fn lemma_bridged_joysticks_split(front: InstancesView, back: InstancesView)
    ensures
        bridged_joysticks(front + back) == bridged_joysticks(front) + bridged_joysticks(back),
    decreases back.len(),
{
    if back.len() == 0 {
        assert(bridged_joysticks(front) + Seq::<DeviceOptionsText>::empty() == bridged_joysticks(
            front,
        ));
    } else {
        let all = front + back;
        assert(all.drop_last() == front + back.drop_last());
        lemma_bridged_joysticks_split(front, back.drop_last());
        let tail = bridged_device("joystick"@, back.last().0, back.last().1);
        assert((bridged_joysticks(front) + bridged_joysticks(back.drop_last())) + tail
            == bridged_joysticks(front) + (bridged_joysticks(back.drop_last()) + tail));
    }
}

/// Emptiness filtering, whole profile: a device whose every option has
/// all four fields unset is absent from what the bridge gives. The blocks
/// are those of the profile without that device.
pub proof fn lemma_silent_keyboard_is_absent(file: ControlsFileView)
    requires
        file.devices.keyboard is Some,
        all_silent(file.devices.keyboard->0.options),
    ensures
        actionmaps_of(file) == actionmaps_of(
            ControlsFileView {
                devices: DeviceSettingsView { keyboard: None, ..file.devices },
                ..file
            },
        ),
{
    lemma_silent_device_bridges_to_nothing("keyboard"@, "1"@, file.devices.keyboard->0);
}

/// As [`lemma_silent_keyboard_is_absent`], for the gamepad.
pub proof fn lemma_silent_gamepad_is_absent(file: ControlsFileView)
    requires
        file.devices.gamepad is Some,
        all_silent(file.devices.gamepad->0.options),
    ensures
        actionmaps_of(file) == actionmaps_of(
            ControlsFileView {
                devices: DeviceSettingsView { gamepad: None, ..file.devices },
                ..file
            },
        ),
{
    lemma_silent_device_bridges_to_nothing("gamepad"@, "1"@, file.devices.gamepad->0);
}

/// As [`lemma_silent_keyboard_is_absent`], for the joystick instance at
/// position `at`.
pub proof fn lemma_silent_joystick_is_absent(file: ControlsFileView, at: int)
    requires
        file.devices.joystick is Some,
        0 <= at < file.devices.joystick->0.len(),
        all_silent(file.devices.joystick->0[at].1.options),
    ensures
        actionmaps_of(file) == actionmaps_of(
            ControlsFileView {
                devices: DeviceSettingsView {
                    joystick: Some(file.devices.joystick->0.remove(at)),
                    ..file.devices
                },
                ..file
            },
        ),
{
    let instances = file.devices.joystick->0;
    let front = instances.take(at);
    let back = instances.skip(at + 1);
    let single = seq![instances[at]];
    assert(instances == (front + single) + back);
    lemma_bridged_joysticks_split(front + single, back);
    lemma_bridged_joysticks_split(front, single);
    lemma_bridged_joysticks_split(front, back);
    assert(bridged_joysticks(single.drop_last()) == Seq::<DeviceOptionsText>::empty());
    lemma_silent_device_bridges_to_nothing("joystick"@, instances[at].0, instances[at].1);
    assert(bridged_joysticks(front) + Seq::<DeviceOptionsText>::empty() == bridged_joysticks(
        front,
    ));
}

} // verus!
