//! From the settings model to the user interface.

use vstd::prelude::*;
use crate::frontend::FrontendDevicesView;
use crate::model::{
    ControlOptionSettings, ControlOptionView, ControlsFile, ControlsFileView, CurveData,
    CurvePointView, DeviceInstanceSettings, DeviceInstanceView, InstancesView, OptionsView,
    Scalar,
};

verus! {

/// Curve point as the user interface gets it back.
#[derive(Debug)]
pub struct CurvePointOutput {
    pub input: Scalar,
    pub output: Scalar,
}

impl View for CurvePointOutput {
    type V = CurvePointView;

    open spec fn view(&self) -> CurvePointView {
        CurvePointView { input: self.input, output: self.output }
    }
}

impl DeepView for CurvePointOutput {
    type V = CurvePointView;

    open spec fn deep_view(&self) -> CurvePointView {
        self.view()
    }
}

/// Curve as the user interface gets it back.
#[derive(Debug)]
pub struct CurveOutputData {
    pub points: Vec<CurvePointOutput>,
}

impl View for CurveOutputData {
    type V = Seq<CurvePointView>;

    open spec fn view(&self) -> Seq<CurvePointView> {
        self.points.deep_view()
    }
}

impl DeepView for CurveOutputData {
    type V = Seq<CurvePointView>;

    open spec fn deep_view(&self) -> Seq<CurvePointView> {
        self.view()
    }
}

/// Control option as the user interface gets it back. A field that is not
/// set stays absent.
#[derive(Debug)]
pub struct ControlOptionOutput {
    pub invert: Option<bool>,
    pub curve_mode: Option<String>,
    pub exponent: Option<Scalar>,
    pub curve: Option<CurveOutputData>,
}

impl View for ControlOptionOutput {
    type V = ControlOptionView;

    open spec fn view(&self) -> ControlOptionView {
        ControlOptionView {
            invert: self.invert,
            curve_mode: self.curve_mode.deep_view(),
            exponent: self.exponent,
            curve: self.curve.deep_view(),
        }
    }
}

impl DeepView for ControlOptionOutput {
    type V = ControlOptionView;

    open spec fn deep_view(&self) -> ControlOptionView {
        self.view()
    }
}

/// Device settings as the user interface gets them back.
#[derive(Debug)]
pub struct DeviceSettingsOutput {
    pub keyboard: Option<Vec<(String, ControlOptionOutput)>>,
    pub gamepad: Option<Vec<(String, ControlOptionOutput)>>,
    pub joystick: Option<Vec<(String, Vec<(String, ControlOptionOutput)>)>>,
}

impl View for DeviceSettingsOutput {
    type V = FrontendDevicesView;

    open spec fn view(&self) -> FrontendDevicesView {
        FrontendDevicesView {
            keyboard: self.keyboard.deep_view(),
            gamepad: self.gamepad.deep_view(),
            joystick: self.joystick.deep_view(),
        }
    }
}

/// A loaded profile in the shape the user interface expects.
#[derive(Debug)]
pub struct LoadControlsOutput {
    pub version: String,
    pub profile_name: String,
    pub last_modified: Option<String>,
    pub devices: DeviceSettingsOutput,
}

/// What a [`LoadControlsOutput`] stands for.
pub struct LoadControlsView {
    pub version: Seq<char>,
    pub profile_name: Seq<char>,
    pub last_modified: Option<Seq<char>>,
    pub devices: FrontendDevicesView,
}

impl View for LoadControlsOutput {
    type V = LoadControlsView;

    open spec fn view(&self) -> LoadControlsView {
        LoadControlsView {
            version: self.version@,
            profile_name: self.profile_name@,
            last_modified: self.last_modified.deep_view(),
            devices: self.devices@,
        }
    }
}

/// The option mapping of a device, if there is a device.
pub open spec fn shown_device(device: Option<DeviceInstanceView>) -> Option<OptionsView> {
    match device {
        Some(device) => Some(device.options),
        None => None,
    }
}

/// The option mapping of each joystick instance, under its instance id.
pub open spec fn shown_instances(instances: InstancesView) -> Seq<(Seq<char>, OptionsView)> {
    instances.map_values(|entry: (Seq<char>, DeviceInstanceView)| (entry.0, entry.1.options))
}

/// What the user interface is shown of a profile: everything but the
/// product labels.
pub open spec fn output_from_file(file: ControlsFileView) -> LoadControlsView {
    LoadControlsView {
        version: file.version,
        profile_name: file.profile_name,
        last_modified: file.last_modified,
        devices: FrontendDevicesView {
            keyboard: shown_device(file.devices.keyboard),
            gamepad: shown_device(file.devices.gamepad),
            joystick: match file.devices.joystick {
                Some(instances) => Some(shown_instances(instances)),
                None => None,
            },
        },
    }
}

fn curve_to_output(curve: CurveData) -> (data: CurveOutputData)
    ensures
        data@ == curve@,
{
    let mut points: Vec<CurvePointOutput> = Vec::new();
    let mut i: usize = 0;
    while i < curve.points.len()
        invariant
            i <= curve.points.len(),
            points.len() == i,
            points.deep_view() == curve.points.deep_view().take(i as int),
        decreases curve.points.len() - i,
    {
        let p = &curve.points[i];
        points.push(CurvePointOutput { input: p.input, output: p.output });
        proof {
            assert(points.deep_view() =~= curve.points.deep_view().take(i + 1));
        }
        i += 1;
    }
    CurveOutputData { points }
}

fn option_to_output(settings: ControlOptionSettings) -> (output: ControlOptionOutput)
    ensures
        output@ == settings@,
{
    ControlOptionOutput {
        invert: settings.invert,
        curve_mode: settings.curve_mode,
        exponent: settings.exponent,
        curve: match settings.curve {
            Some(c) => Some(curve_to_output(c)),
            None => None,
        },
    }
}

/// Hands out the option mapping of a device, entry by entry and whole.
pub fn convert_device_to_output(device: DeviceInstanceSettings) -> (result: Vec<
    (String, ControlOptionOutput),
>)
    ensures
        result.deep_view() == device@.options,
{
    let ghost items = device.options@;
    let ghost source = device.options.deep_view();
    let mut result: Vec<(String, ControlOptionOutput)> = Vec::new();
    for entry in it: device.options.into_iter()
        invariant
            it.seq() == items,
            source.len() == items.len(),
            forall|k: int| 0 <= k < items.len() ==> source[k] == items[k].deep_view(),
            result.len() == it.index(),
            result.deep_view() == source.take(it.index() as int),
    {
        let (name, settings) = entry;
        result.push((name, option_to_output(settings)));
        proof {
            assert(result.deep_view() =~= source.take(it.index() + 1));
        }
    }
    result
}

fn device_to_output(device: Option<DeviceInstanceSettings>) -> (result: Option<
    Vec<(String, ControlOptionOutput)>,
>)
    ensures
        result.deep_view() == shown_device(device.deep_view()),
{
    match device {
        Some(device) => Some(convert_device_to_output(device)),
        None => None,
    }
}

fn instances_to_output(instances: Vec<(String, DeviceInstanceSettings)>) -> (result: Vec<
    (String, Vec<(String, ControlOptionOutput)>),
>)
    ensures
        result.deep_view() == shown_instances(instances.deep_view()),
{
    let ghost items = instances@;
    let ghost source = instances.deep_view();
    let mut result: Vec<(String, Vec<(String, ControlOptionOutput)>)> = Vec::new();
    for entry in it: instances.into_iter()
        invariant
            it.seq() == items,
            source.len() == items.len(),
            forall|k: int| 0 <= k < items.len() ==> source[k] == items[k].deep_view(),
            result.len() == it.index(),
            result.deep_view() == shown_instances(source.take(it.index() as int)),
    {
        let (instance_num, device) = entry;
        let ghost before = result.deep_view();
        result.push((instance_num, convert_device_to_output(device)));
        proof {
            let now = result.deep_view();
            let want = shown_instances(source.take(it.index() + 1));
            assert forall|k: int| 0 <= k < now.len() implies now[k] == want[k] by {
                if k < it.index() {
                    assert(now[k] == before[k]);
                }
            }
        }
    }
    result
}

impl vstd::std_specs::convert::FromSpecImpl<ControlsFile> for LoadControlsOutput {
    /// The result is stated over views, in the contract of `from` itself.
    open spec fn obeys_from_spec() -> bool {
        false
    }

    open spec fn from_spec(file: ControlsFile) -> LoadControlsOutput {
        arbitrary()
    }
}

impl From<ControlsFile> for LoadControlsOutput {
    /// Puts a profile into the shape the user interface expects.
    fn from(file: ControlsFile) -> (output: LoadControlsOutput)
        ensures
            output@ == output_from_file(file@),
    {
        LoadControlsOutput {
            version: file.version,
            profile_name: file.profile_name,
            last_modified: file.last_modified,
            devices: DeviceSettingsOutput {
                keyboard: device_to_output(file.devices.keyboard),
                gamepad: device_to_output(file.devices.gamepad),
                joystick: match file.devices.joystick {
                    Some(instances) => Some(instances_to_output(instances)),
                    None => None,
                },
            },
        }
    }
}

} // verus!
