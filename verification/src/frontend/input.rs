//! From the user interface to the settings model.

use vstd::prelude::*;
use crate::clock::current_timestamp;
use crate::frontend::FrontendDevicesView;
use crate::model::{
    all_silent, distinct_keys, ControlOptionSettings, ControlOptionView, ControlsFile,
    ControlsFileView, CurveData, CurvePoint, CurvePointView, DeviceInstanceSettings,
    DeviceInstanceView, DeviceSettingsView, InstancesView, OptionsView, Scalar,
    CONTROLS_FILE_VERSION,
};

verus! {


/// Curve point as the user interface sends it.
#[derive(Debug)]
pub struct CurvePointInput {
    pub input: Scalar,
    pub output: Scalar,
}

impl View for CurvePointInput {
    type V = CurvePointView;

    open spec fn view(&self) -> CurvePointView {
        CurvePointView { input: self.input, output: self.output }
    }
}

impl DeepView for CurvePointInput {
    type V = CurvePointView;

    open spec fn deep_view(&self) -> CurvePointView {
        self.view()
    }
}

/// Curve as the user interface sends it.
#[derive(Debug)]
pub struct CurveInput {
    pub points: Vec<CurvePointInput>,
}

impl View for CurveInput {
    type V = Seq<CurvePointView>;

    open spec fn view(&self) -> Seq<CurvePointView> {
        self.points.deep_view()
    }
}

impl DeepView for CurveInput {
    type V = Seq<CurvePointView>;

    open spec fn deep_view(&self) -> Seq<CurvePointView> {
        self.view()
    }
}

/// Control option as the user interface sends it. Every field may be absent.
#[derive(Debug)]
pub struct ControlOptionInput {
    pub invert: Option<bool>,
    pub curve_mode: Option<String>,
    pub exponent: Option<Scalar>,
    pub curve: Option<CurveInput>,
}

impl View for ControlOptionInput {
    type V = ControlOptionView;

    open spec fn view(&self) -> ControlOptionView {
        ControlOptionView {
            invert: self.invert,
            curve_mode: self.curve_mode.deep_view(),
            exponent: self.exponent,
            curve: self.curve.deep_view(),
        }
    }
}

impl DeepView for ControlOptionInput {
    type V = ControlOptionView;

    open spec fn deep_view(&self) -> ControlOptionView {
        self.view()
    }
}

/// Device settings as the user interface sends them.
#[derive(Debug)]
pub struct DeviceSettingsInput {
    pub keyboard: Option<Vec<(String, ControlOptionInput)>>,
    pub gamepad: Option<Vec<(String, ControlOptionInput)>>,
    pub joystick: Option<Vec<(String, Vec<(String, ControlOptionInput)>)>>,
}

impl View for DeviceSettingsInput {
    type V = FrontendDevicesView;

    open spec fn view(&self) -> FrontendDevicesView {
        FrontendDevicesView {
            keyboard: self.keyboard.deep_view(),
            gamepad: self.gamepad.deep_view(),
            joystick: self.joystick.deep_view(),
        }
    }
}

/// What the user interface sends to save a profile.
#[derive(Debug)]
pub struct SaveControlsInput {
    pub profile_name: String,
    pub devices: DeviceSettingsInput,
}

/// What a [`SaveControlsInput`] stands for.
pub struct SaveControlsView {
    pub profile_name: Seq<char>,
    pub devices: FrontendDevicesView,
}

impl View for SaveControlsInput {
    type V = SaveControlsView;

    open spec fn view(&self) -> SaveControlsView {
        SaveControlsView { profile_name: self.profile_name@, devices: self.devices@ }
    }
}

/// The entries that say something: those with at least one field set, in
/// the order they came in.
pub open spec fn kept_options(options: OptionsView) -> OptionsView {
    options.filter(|entry: (Seq<char>, ControlOptionView)| entry.1.has_value())
}

/// A device made of the entries that say something, or none if no entry does.
pub open spec fn kept_device(options: Option<OptionsView>) -> Option<DeviceInstanceView> {
    match options {
        Some(options) if kept_options(options).len() > 0 => Some(
            DeviceInstanceView { product: None, options: kept_options(options) },
        ),
        _ => None,
    }
}

/// One joystick instance, reduced to the entries that say something.
pub open spec fn reduced_instance(entry: (Seq<char>, OptionsView)) -> (
    Seq<char>,
    DeviceInstanceView,
) {
    (entry.0, DeviceInstanceView { product: None, options: kept_options(entry.1) })
}

/// The joystick instances that are left with an option, in the order they
/// came in.
pub open spec fn kept_instances(instances: Seq<(Seq<char>, OptionsView)>) -> InstancesView {
    instances.map_values(|entry: (Seq<char>, OptionsView)| reduced_instance(entry)).filter(
        |entry: (Seq<char>, DeviceInstanceView)| entry.1.options.len() > 0,
    )
}

/// The joystick list with the instances that are left with an option, or
/// none if no instance is.
pub open spec fn kept_joysticks(instances: Option<Seq<(Seq<char>, OptionsView)>>) -> Option<
    InstancesView,
> {
    match instances {
        Some(instances) if kept_instances(instances).len() > 0 => Some(kept_instances(instances)),
        _ => None,
    }
}

/// The profile that is saved for what the user interface sent, stamped with
/// the time given.
pub open spec fn file_from_input(
    input: SaveControlsView,
    last_modified: Seq<char>,
) -> ControlsFileView {
    ControlsFileView {
        version: CONTROLS_FILE_VERSION@,
        profile_name: input.profile_name,
        last_modified: Some(last_modified),
        devices: DeviceSettingsView {
            keyboard: kept_device(input.devices.keyboard),
            gamepad: kept_device(input.devices.gamepad),
            joystick: kept_joysticks(input.devices.joystick),
        },
    }
}

fn convert_curve(curve: CurveInput) -> (data: CurveData)
    ensures
        data@ == curve@,
{
    let mut points: Vec<CurvePoint> = Vec::new();
    let mut i: usize = 0;
    while i < curve.points.len()
        invariant
            i <= curve.points.len(),
            points.len() == i,
            points.deep_view() == curve.points.deep_view().take(i as int),
        decreases curve.points.len() - i,
    {
        let p = &curve.points[i];
        points.push(CurvePoint { input: p.input, output: p.output });
        proof {
            assert(points.deep_view() =~= curve.points.deep_view().take(i + 1));
        }
        i += 1;
    }
    CurveData { points }
}

fn convert_option(opt: ControlOptionInput) -> (settings: ControlOptionSettings)
    ensures
        settings@ == opt@,
{
    ControlOptionSettings {
        invert: opt.invert,
        curve_mode: opt.curve_mode,
        exponent: opt.exponent,
        curve: match opt.curve {
            Some(c) => Some(convert_curve(c)),
            None => None,
        },
    }
}

/// Converts the option mapping of one device, leaving out every entry with
/// no field set.
pub fn convert_options_map(opts: Vec<(String, ControlOptionInput)>) -> (result: Vec<
    (String, ControlOptionSettings),
>)
    ensures
        result.deep_view() == kept_options(opts.deep_view()),
{
    let ghost items = opts@;
    let ghost source = opts.deep_view();
    let mut result: Vec<(String, ControlOptionSettings)> = Vec::new();
    proof {
        reveal(Seq::filter);
    }
    for entry in it: opts.into_iter()
        invariant
            it.seq() == items,
            source.len() == items.len(),
            forall|k: int| 0 <= k < items.len() ==> source[k] == items[k].deep_view(),
            result.deep_view() == kept_options(source.take(it.index() as int)),
    {
        let (name, opt) = entry;
        let settings = convert_option(opt);
        proof {
            reveal(Seq::filter);
            assert(source.take(it.index() + 1).drop_last() == source.take(it.index() as int));
        }
        if settings.invert.is_some() || settings.curve_mode.is_some()
            || settings.exponent.is_some() || settings.curve.is_some() {
            result.push((name, settings));
        }
    }
    proof {
        assert(source.take(source.len() as int) == source);
    }
    result
}

/// Pushing one more instance through [`kept_instances`] appends it if it
/// is left with an option, and changes nothing otherwise.
proof fn lemma_kept_instances_step(instances: Seq<(Seq<char>, OptionsView)>, i: int)
    requires
        0 <= i < instances.len(),
    ensures
        kept_instances(instances.take(i + 1)) == if kept_options(instances[i].1).len() > 0 {
            kept_instances(instances.take(i)).push(reduced_instance(instances[i]))
        } else {
            kept_instances(instances.take(i))
        },
{
    reveal(Seq::filter);
    let reduce = |entry: (Seq<char>, OptionsView)| reduced_instance(entry);
    let mapped = instances.take(i + 1).map_values(reduce);
    assert(mapped.drop_last() == instances.take(i).map_values(reduce));
}

fn convert_device(opts: Option<Vec<(String, ControlOptionInput)>>) -> (device: Option<
    DeviceInstanceSettings,
>)
    ensures
        device.deep_view() == kept_device(opts.deep_view()),
{
    match opts {
        Some(opts) => {
            let options = convert_options_map(opts);
            if !options.is_empty() {
                Some(DeviceInstanceSettings { product: None, options })
            } else {
                None
            }
        },
        None => None,
    }
}

fn convert_instances(instances: Vec<(String, Vec<(String, ControlOptionInput)>)>) -> (result: Vec<
    (String, DeviceInstanceSettings),
>)
    ensures
        result.deep_view() == kept_instances(instances.deep_view()),
{
    let ghost items = instances@;
    let ghost source = instances.deep_view();
    let mut result: Vec<(String, DeviceInstanceSettings)> = Vec::new();
    proof {
        reveal(Seq::filter);
    }
    for entry in it: instances.into_iter()
        invariant
            it.seq() == items,
            source.len() == items.len(),
            forall|k: int| 0 <= k < items.len() ==> source[k] == items[k].deep_view(),
            result.deep_view() == kept_instances(source.take(it.index() as int)),
    {
        let (instance_num, opts) = entry;
        let options = convert_options_map(opts);
        proof {
            lemma_kept_instances_step(source, it.index() as int);
        }
        if !options.is_empty() {
            result.push((instance_num, DeviceInstanceSettings { product: None, options }));
        }
    }
    proof {
        assert(source.take(source.len() as int) == source);
    }
    result
}

fn convert_joysticks(
    instances: Option<Vec<(String, Vec<(String, ControlOptionInput)>)>>,
) -> (result: Option<Vec<(String, DeviceInstanceSettings)>>)
    ensures
        result.deep_view() == kept_joysticks(instances.deep_view()),
{
    match instances {
        Some(instances) => {
            let kept = convert_instances(instances);
            if !kept.is_empty() {
                Some(kept)
            } else {
                None
            }
        },
        None => None,
    }
}

impl ControlsFile {
    /// Builds the profile to save from what the user interface sent, stamped
    /// with the time given.
    pub fn from_input(input: SaveControlsInput, last_modified: String) -> (file: ControlsFile)
        ensures
            file@ == file_from_input(input@, last_modified@),
            input@.devices.wf() ==> file@.wf(),
    {
        proof {
            if input@.devices.wf() {
                lemma_file_from_input_is_well_formed(input@, last_modified@);
            }
        }
        let mut file = ControlsFile::with_timestamp(input.profile_name, last_modified);
        file.devices.keyboard = convert_device(input.devices.keyboard);
        file.devices.gamepad = convert_device(input.devices.gamepad);
        file.devices.joystick = convert_joysticks(input.devices.joystick);
        file
    }
}

impl vstd::std_specs::convert::FromSpecImpl<SaveControlsInput> for ControlsFile {
    /// The profile carries the time of the call, so it is no function of
    /// the input alone.
    open spec fn obeys_from_spec() -> bool {
        false
    }

    open spec fn from_spec(input: SaveControlsInput) -> ControlsFile {
        arbitrary()
    }
}

impl From<SaveControlsInput> for ControlsFile {
    /// Builds the profile to save from what the user interface sent, stamped
    /// with the current time.
    fn from(input: SaveControlsInput) -> (file: ControlsFile)
        ensures
            file@.last_modified is Some,
            file@.last_modified->0.len() > 0,
            file@ == file_from_input(input@, file@.last_modified->0),
            input@.devices.wf() ==> file@.wf(),
    {
        ControlsFile::from_input(input, current_timestamp())
    }
}

/// What is kept is kept whole: each entry that the adapter keeps is an
/// entry that came in, with all four fields as they were, and it has a
/// field set.
pub proof fn lemma_kept_options_came_in(options: OptionsView, k: int)
    requires
        0 <= k < kept_options(options).len(),
    ensures
        options.contains(kept_options(options)[k]),
        kept_options(options)[k].1.has_value(),
{
    let says_something = |entry: (Seq<char>, ControlOptionView)| entry.1.has_value();
    let kept = options.filter(says_something);
    options.lemma_filter_pred(says_something, k);
    options.lemma_filter_contains_rev(says_something, kept[k]);
}

/// Nothing that says something is lost: each entry that came in with a
/// field set is among those kept.
pub proof fn lemma_spoken_options_are_kept(options: OptionsView, i: int)
    requires
        0 <= i < options.len(),
        options[i].1.has_value(),
    ensures
        kept_options(options).contains(options[i]),
{
    let says_something = |entry: (Seq<char>, ControlOptionView)| entry.1.has_value();
    options.lemma_filter_contains(says_something, i);
}

/// Keeping entries keeps their names apart.
pub proof fn lemma_kept_options_distinct(options: OptionsView)
    requires
        distinct_keys(options),
    ensures
        distinct_keys(kept_options(options)),
    decreases options.len(),
{
    reveal(Seq::filter);
    if options.len() > 0 {
        let rest = options.drop_last();
        let last = options.last();
        assert(distinct_keys(rest));
        lemma_kept_options_distinct(rest);
        let kept_rest = kept_options(rest);
        assert forall|k: int| 0 <= k < kept_rest.len() implies (#[trigger] kept_rest[k]).0
            != last.0 by {
            lemma_kept_options_came_in(rest, k);
        }
    }
}

/// If no entry says anything, nothing is kept and the device is left out.
pub proof fn lemma_silent_options_are_dropped(options: OptionsView)
    requires
        all_silent(options),
    ensures
        kept_options(options) == Seq::<(Seq<char>, ControlOptionView)>::empty(),
        kept_device(Some(options)) is None,
{
    if kept_options(options).len() > 0 {
        lemma_kept_options_came_in(options, 0);
    }
}

/// The instances kept of a list are those kept of its front part followed
/// by those kept of its back part.
pub proof fn lemma_kept_instances_split(
    front: Seq<(Seq<char>, OptionsView)>,
    back: Seq<(Seq<char>, OptionsView)>,
)
    ensures
        kept_instances(front + back) == kept_instances(front) + kept_instances(back),
{
    let reduce = |entry: (Seq<char>, OptionsView)| reduced_instance(entry);
    let has_options = |entry: (Seq<char>, DeviceInstanceView)| entry.1.options.len() > 0;
    assert((front + back).map_values(reduce) == front.map_values(reduce) + back.map_values(
        reduce,
    ));
    Seq::filter_distributes_over_add(
        front.map_values(reduce),
        back.map_values(reduce),
        has_options,
    );
}

/// Each instance that the adapter keeps came in under the same instance
/// id, holds the entries kept of it, and holds at least one.
pub proof fn lemma_kept_instances_came_in(instances: Seq<(Seq<char>, OptionsView)>, k: int)
    requires
        0 <= k < kept_instances(instances).len(),
    ensures
        kept_instances(instances)[k].1.options.len() > 0,
        exists|j: int|
            0 <= j < instances.len() && kept_instances(instances)[k] == reduced_instance(
                #[trigger] instances[j],
            ),
{
    let reduce = |entry: (Seq<char>, OptionsView)| reduced_instance(entry);
    let has_options = |entry: (Seq<char>, DeviceInstanceView)| entry.1.options.len() > 0;
    let mapped = instances.map_values(reduce);
    let kept = mapped.filter(has_options);
    mapped.lemma_filter_pred(has_options, k);
    mapped.lemma_filter_contains_rev(has_options, kept[k]);
    let j = choose|j: int| 0 <= j < mapped.len() && mapped[j] == kept[k];
    assert(kept[k] == reduced_instance(instances[j]));
}

/// No more instances are kept than came in.
pub proof fn lemma_kept_instances_len(instances: Seq<(Seq<char>, OptionsView)>)
    ensures
        kept_instances(instances).len() <= instances.len(),
{
    instances.map_values(|entry: (Seq<char>, OptionsView)| reduced_instance(entry))
        .lemma_filter_len(|entry: (Seq<char>, DeviceInstanceView)| entry.1.options.len() > 0);
}

/// Keeping instances keeps their ids apart.
pub proof fn lemma_kept_instances_distinct(instances: Seq<(Seq<char>, OptionsView)>)
    requires
        distinct_keys(instances),
    ensures
        distinct_keys(kept_instances(instances)),
    decreases instances.len(),
{
    if instances.len() > 0 {
        let rest = instances.drop_last();
        let last = instances.last();
        assert(instances == rest + seq![last]);
        lemma_kept_instances_split(rest, seq![last]);
        assert(distinct_keys(rest));
        lemma_kept_instances_distinct(rest);
        let kept_rest = kept_instances(rest);
        let kept_last = kept_instances(seq![last]);
        assert forall|k: int| 0 <= k < kept_rest.len() implies (#[trigger] kept_rest[k]).0
            != last.0 by {
            lemma_kept_instances_came_in(rest, k);
        }
        lemma_kept_instances_len(seq![last]);
        if kept_last.len() == 1 {
            lemma_kept_instances_came_in(seq![last], 0);
        }
        assert(distinct_keys(kept_rest + kept_last));
    } else {
        lemma_kept_instances_len(instances);
    }
}

/// The profile that the adapter builds is well formed if what came in is.
pub proof fn lemma_file_from_input_is_well_formed(
    input: SaveControlsView,
    last_modified: Seq<char>,
)
    requires
        input.devices.wf(),
    ensures
        file_from_input(input, last_modified).wf(),
{
    if let Some(options) = input.devices.keyboard {
        lemma_kept_options_distinct(options);
    }
    if let Some(options) = input.devices.gamepad {
        lemma_kept_options_distinct(options);
    }
    if let Some(instances) = input.devices.joystick {
        lemma_kept_instances_distinct(instances);
        let kept = kept_instances(instances);
        assert forall|k: int| 0 <= k < kept.len() implies (#[trigger] kept[k]).1.wf() by {
            lemma_kept_instances_came_in(instances, k);
            let j = choose|j: int|
                0 <= j < instances.len() && kept[k] == reduced_instance(#[trigger] instances[j]);
            lemma_kept_options_distinct(instances[j].1);
        }
    }
}

/// The profile that the adapter builds holds no entry that says nothing:
/// every option in it has a field set, every device in it has an option,
/// and a joystick list in it has an instance.
pub proof fn lemma_file_from_input_is_compact(
    input: SaveControlsView,
    last_modified: Seq<char>,
)
    ensures
        ({
            let devices = file_from_input(input, last_modified).devices;
            &&& devices.keyboard matches Some(d) ==> d.options.len() > 0 && forall|i: int|
                0 <= i < d.options.len() ==> (#[trigger] d.options[i]).1.has_value()
            &&& devices.gamepad matches Some(d) ==> d.options.len() > 0 && forall|i: int|
                0 <= i < d.options.len() ==> (#[trigger] d.options[i]).1.has_value()
            &&& devices.joystick matches Some(j) ==> j.len() > 0 && forall|k: int|
                0 <= k < j.len() ==> (#[trigger] j[k]).1.options.len() > 0 && forall|i: int|
                    0 <= i < j[k].1.options.len() ==> (#[trigger] j[k].1.options[i]).1.has_value()
        }),
{
    let devices = file_from_input(input, last_modified).devices;
    if let Some(d) = devices.keyboard {
        assert forall|i: int| 0 <= i < d.options.len() implies (
        #[trigger] d.options[i]).1.has_value() by {
            lemma_kept_options_came_in(input.devices.keyboard->0, i);
        }
    }
    if let Some(d) = devices.gamepad {
        assert forall|i: int| 0 <= i < d.options.len() implies (
        #[trigger] d.options[i]).1.has_value() by {
            lemma_kept_options_came_in(input.devices.gamepad->0, i);
        }
    }
    if let Some(j) = devices.joystick {
        let instances = input.devices.joystick->0;
        assert forall|k: int| 0 <= k < j.len() implies (#[trigger] j[k]).1.options.len() > 0
            && forall|i: int|
            0 <= i < j[k].1.options.len() ==> (#[trigger] j[k].1.options[i]).1.has_value() by {
            lemma_kept_instances_came_in(instances, k);
            let n = choose|n: int|
                0 <= n < instances.len() && j[k] == reduced_instance(#[trigger] instances[n]);
            assert forall|i: int| 0 <= i < j[k].1.options.len() implies (
            #[trigger] j[k].1.options[i]).1.has_value() by {
                lemma_kept_options_came_in(instances[n].1, i);
            }
        }
    }
}

/// Emptiness filtering: a keyboard whose every option has all four fields
/// unset is absent from the profile that the adapter builds.
pub proof fn lemma_silent_input_keyboard_is_absent(
    input: SaveControlsView,
    last_modified: Seq<char>,
)
    requires
        input.devices.keyboard is Some,
        all_silent(input.devices.keyboard->0),
    ensures
        file_from_input(input, last_modified).devices.keyboard is None,
{
    lemma_silent_options_are_dropped(input.devices.keyboard->0);
}

/// Emptiness filtering: a gamepad whose every option has all four fields
/// unset is absent from the profile that the adapter builds.
pub proof fn lemma_silent_input_gamepad_is_absent(
    input: SaveControlsView,
    last_modified: Seq<char>,
)
    requires
        input.devices.gamepad is Some,
        all_silent(input.devices.gamepad->0),
    ensures
        file_from_input(input, last_modified).devices.gamepad is None,
{
    lemma_silent_options_are_dropped(input.devices.gamepad->0);
}

/// Emptiness filtering: a joystick instance whose every option has all
/// four fields unset is absent from the profile that the adapter builds.
/// The profile is the one built without that instance, and where instance
/// ids are unique no instance of the profile has its id.
pub proof fn lemma_silent_input_joystick_is_absent(
    input: SaveControlsView,
    last_modified: Seq<char>,
    at: int,
)
    requires
        input.devices.joystick is Some,
        0 <= at < input.devices.joystick->0.len(),
        all_silent(input.devices.joystick->0[at].1),
    ensures
        file_from_input(input, last_modified) == file_from_input(
            SaveControlsView {
                devices: FrontendDevicesView {
                    joystick: Some(input.devices.joystick->0.remove(at)),
                    ..input.devices
                },
                ..input
            },
            last_modified,
        ),
        distinct_keys(input.devices.joystick->0) ==> forall|k: int|
            0 <= k < kept_instances(input.devices.joystick->0).len() ==> (#[trigger] kept_instances(
                input.devices.joystick->0,
            )[k]).0 != input.devices.joystick->0[at].0,
{
    let instances = input.devices.joystick->0;
    let front = instances.take(at);
    let back = instances.skip(at + 1);
    let single = seq![instances[at]];
    assert(instances == (front + single) + back);
    lemma_kept_instances_split(front + single, back);
    lemma_kept_instances_split(front, single);
    lemma_kept_instances_split(front, back);
    lemma_silent_options_are_dropped(instances[at].1);
    if kept_instances(single).len() > 0 {
        lemma_kept_instances_came_in(single, 0);
    }
    assert(kept_instances(front) + Seq::<(Seq<char>, DeviceInstanceView)>::empty()
        == kept_instances(front));
    let kept = kept_instances(instances);
    if distinct_keys(instances) {
        assert forall|k: int| 0 <= k < kept.len() implies (#[trigger] kept[k]).0
            != instances[at].0 by {
            lemma_kept_instances_came_in(instances, k);
        }
    }
}

} // verus!
