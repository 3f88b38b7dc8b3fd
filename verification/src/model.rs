//! The settings model: what a saved profile holds for each device.
//!
//! A mapping from names to entries is kept as a vector of pairs. The order
//! of the pairs is the order in which conversions walk them; a mapping is
//! well formed when no name occurs twice.

use vstd::prelude::*;
use crate::clock::current_timestamp;

verus! {

/// Version of the settings file format.
pub const CONTROLS_FILE_VERSION: &'static str = "1.0";

/// A number of the settings file, held as the bit pattern of an IEEE 754
/// double. The crate stores and copies such numbers and never computes
/// with them.
#[derive(Debug, Clone, Copy, PartialEq, Eq)]
pub struct Scalar {
    pub bits: u64,
}

/// A point on a response curve.
#[derive(Debug, Clone)]
pub struct CurvePoint {
    pub input: Scalar,
    pub output: Scalar,
}

/// What a curve point stands for, in every shape that holds one.
pub struct CurvePointView {
    pub input: Scalar,
    pub output: Scalar,
}

impl View for CurvePoint {
    type V = CurvePointView;

    open spec fn view(&self) -> CurvePointView {
        CurvePointView { input: self.input, output: self.output }
    }
}

impl DeepView for CurvePoint {
    type V = CurvePointView;

    open spec fn deep_view(&self) -> CurvePointView {
        self.view()
    }
}

/// The points of a response curve. Their order defines the curve.
#[derive(Debug, Clone)]
pub struct CurveData {
    pub points: Vec<CurvePoint>,
}

impl View for CurveData {
    type V = Seq<CurvePointView>;

    open spec fn view(&self) -> Seq<CurvePointView> {
        self.points.deep_view()
    }
}

impl DeepView for CurveData {
    type V = Seq<CurvePointView>;

    open spec fn deep_view(&self) -> Seq<CurvePointView> {
        self.view()
    }
}

/// Settings for a single control option. Only `invert` reaches the vendor
/// file; the other three fields are saved and handed back, nothing more.
#[derive(Debug, Clone)]
pub struct ControlOptionSettings {
    /// Whether the axis is inverted.
    pub invert: Option<bool>,
    /// The curve mode: "exponent" or "curve".
    pub curve_mode: Option<String>,
    /// Exponent value, for the curve mode "exponent".
    pub exponent: Option<Scalar>,
    /// Curve points, for the curve mode "curve".
    pub curve: Option<CurveData>,
}

/// What the settings of one control option stand for, in every shape that
/// holds them.
pub struct ControlOptionView {
    pub invert: Option<bool>,
    pub curve_mode: Option<Seq<char>>,
    pub exponent: Option<Scalar>,
    pub curve: Option<Seq<CurvePointView>>,
}

impl ControlOptionView {
    /// At least one of the four fields is set.
    pub open spec fn has_value(self) -> bool {
        self.invert is Some || self.curve_mode is Some || self.exponent is Some
            || self.curve is Some
    }
}

impl View for ControlOptionSettings {
    type V = ControlOptionView;

    open spec fn view(&self) -> ControlOptionView {
        ControlOptionView {
            invert: self.invert,
            curve_mode: self.curve_mode.deep_view(),
            exponent: self.exponent,
            curve: self.curve.deep_view(),
        }
    }
}

impl DeepView for ControlOptionSettings {
    type V = ControlOptionView;

    open spec fn deep_view(&self) -> ControlOptionView {
        self.view()
    }
}

/// A mapping from control option names to settings, as a sequence of pairs.
pub type OptionsView = Seq<(Seq<char>, ControlOptionView)>;

/// Whether no entry of a mapping says anything: every option in it has all
/// four fields unset.
pub open spec fn all_silent(options: OptionsView) -> bool {
    forall|i: int| 0 <= i < options.len() ==> !(#[trigger] options[i]).1.has_value()
}

/// No key occurs twice.
pub open spec fn distinct_keys<V>(entries: Seq<(Seq<char>, V)>) -> bool {
    forall|i: int, j: int| 0 <= i < j < entries.len() ==> entries[i].0 != entries[j].0
}

/// Whether no name occurs twice among the entries.
pub fn names_are_distinct<T: DeepView>(entries: &Vec<(String, T)>) -> (distinct: bool)
    ensures
        distinct == distinct_keys(entries.deep_view()),
{
    let ghost keyed = entries.deep_view();
    let mut i: usize = 0;
    while i < entries.len()
        invariant
            i <= entries.len(),
            keyed == entries.deep_view(),
            forall|a: int, b: int| 0 <= a < b < i ==> keyed[a].0 != keyed[b].0,
        decreases entries.len() - i,
    {
        let mut j: usize = 0;
        while j < i
            invariant
                j <= i < entries.len(),
                keyed == entries.deep_view(),
                forall|a: int| 0 <= a < j ==> keyed[a].0 != keyed[i as int].0,
            decreases i - j,
        {
            if entries[j].0 == entries[i].0 {
                proof {
                    assert(keyed[j as int].0 == keyed[i as int].0);
                }
                return false;
            }
            j += 1;
        }
        i += 1;
    }
    true
}

/// The position of the first entry with the key given, or the number of
/// entries if none has it.
pub open spec fn position_of<V>(entries: Seq<(Seq<char>, V)>, key: Seq<char>) -> int
    decreases entries.len(),
{
    if entries.len() == 0 {
        0
    } else if entries.first().0 == key {
        0
    } else {
        1 + position_of(entries.drop_first(), key)
    }
}

/// A mapping with a value put under a key: in the place of the first entry
/// that has the key, or at the end if none has it.
pub open spec fn with_entry<V>(entries: Seq<(Seq<char>, V)>, key: Seq<char>, value: V) -> Seq<
    (Seq<char>, V),
> {
    let at = position_of(entries, key);
    if at < entries.len() {
        entries.update(at, (key, value))
    } else {
        entries.push((key, value))
    }
}

/// Where a key is first found: at a position within the entries that holds
/// the key, with no entry before it that does, or behind all entries if no
/// entry holds the key.
pub proof fn lemma_position_of<V>(entries: Seq<(Seq<char>, V)>, key: Seq<char>)
    ensures
        0 <= position_of(entries, key) <= entries.len(),
        position_of(entries, key) < entries.len() ==> entries[position_of(entries, key)].0 == key,
        forall|i: int| 0 <= i < position_of(entries, key) ==> (#[trigger] entries[i]).0 != key,
    decreases entries.len(),
{
    if entries.len() > 0 && entries.first().0 != key {
        let rest = entries.drop_first();
        lemma_position_of(rest, key);
        assert forall|i: int| 0 <= i < position_of(entries, key) implies (#[trigger] entries[i]).0
            != key by {
            if i > 0 {
                assert(entries[i] == rest[i - 1]);
            }
        }
    }
}

/// Putting a value under a key keeps the keys apart.
pub proof fn lemma_with_entry_distinct<V>(entries: Seq<(Seq<char>, V)>, key: Seq<char>, value: V)
    requires
        distinct_keys(entries),
    ensures
        distinct_keys(with_entry(entries, key, value)),
{
    lemma_position_of(entries, key);
    let at = position_of(entries, key);
    let after = with_entry(entries, key, value);
    assert forall|i: int, j: int| 0 <= i < j < after.len() implies after[i].0 != after[j].0 by {
        if at < entries.len() {
            assert(after[i].0 == entries[i].0);
            assert(after[j].0 == entries[j].0);
        } else if j < entries.len() {
            assert(after[i] == entries[i] && after[j] == entries[j]);
        } else {
            assert(after[i] == entries[i]);
        }
    }
}

/// Puts a value under a name: in the place of the entry that has the name,
/// or at the end if none has it. Names that were unique stay unique.
pub fn put_entry<T: DeepView>(entries: &mut Vec<(String, T)>, name: String, value: T)
    ensures
        final(entries).deep_view() == with_entry(
            old(entries).deep_view(),
            name@,
            value.deep_view(),
        ),
        distinct_keys(old(entries).deep_view()) ==> distinct_keys(final(entries).deep_view()),
{
    let ghost before = entries.deep_view();
    let ghost put = value.deep_view();
    let mut i: usize = 0;
    while i < entries.len()
        invariant
            i <= entries.len(),
            before == entries.deep_view(),
            before == old(entries).deep_view(),
            put == value.deep_view(),
            forall|k: int| 0 <= k < i ==> (#[trigger] before[k]).0 != name@,
        decreases entries.len() - i,
    {
        if entries[i].0 == name {
            proof {
                lemma_position_of(before, name@);
                assert(before[i as int].0 == name@);
                assert(position_of(before, name@) == i);
                if distinct_keys(before) {
                    lemma_with_entry_distinct(before, name@, put);
                }
            }
            entries.set(i, (name, value));
            proof {
                assert(entries.deep_view() =~= before.update(i as int, (name@, put)));
            }
            return ;
        }
        i += 1;
    }
    proof {
        lemma_position_of(before, name@);
        assert(position_of(before, name@) == before.len());
        if distinct_keys(before) {
            lemma_with_entry_distinct(before, name@, put);
        }
    }
    entries.push((name, value));
    proof {
        assert(entries.deep_view() =~= before.push((name@, put)));
    }
}

/// Settings for one device instance.
#[derive(Debug, Clone)]
pub struct DeviceInstanceSettings {
    /// The product label of the device, for identification.
    pub product: Option<String>,
    /// Control options of this instance, by option name
    /// (such as "flight_move_pitch").
    pub options: Vec<(String, ControlOptionSettings)>,
}

/// What a [`DeviceInstanceSettings`] stands for.
pub struct DeviceInstanceView {
    pub product: Option<Seq<char>>,
    pub options: OptionsView,
}

impl DeviceInstanceView {
    /// Option names are unique.
    pub open spec fn wf(self) -> bool {
        distinct_keys(self.options)
    }
}

impl View for DeviceInstanceSettings {
    type V = DeviceInstanceView;

    open spec fn view(&self) -> DeviceInstanceView {
        DeviceInstanceView {
            product: self.product.deep_view(),
            options: self.options.deep_view(),
        }
    }
}

impl DeepView for DeviceInstanceSettings {
    type V = DeviceInstanceView;

    open spec fn deep_view(&self) -> DeviceInstanceView {
        self.view()
    }
}

impl DeviceInstanceSettings {
    /// A device instance without options.
    pub fn new(product: Option<String>) -> (device: DeviceInstanceSettings)
        ensures
            device@ == (DeviceInstanceView {
                product: product.deep_view(),
                options: Seq::empty(),
            }),
            device@.wf(),
    {
        let device = DeviceInstanceSettings { product, options: Vec::new() };
        proof {
            assert(device@.options =~= Seq::empty());
        }
        device
    }

    /// Sets the settings of the option with the name given, in the place
    /// of those it had, if any. A well-formed instance stays well formed.
    pub fn set_option(&mut self, name: String, settings: ControlOptionSettings)
        ensures
            final(self)@ == (DeviceInstanceView {
                options: with_entry(old(self)@.options, name@, settings@),
                ..old(self)@
            }),
            old(self)@.wf() ==> final(self)@.wf(),
    {
        put_entry(&mut self.options, name, settings);
    }

    /// Whether option names are unique.
    pub fn is_well_formed(&self) -> (ok: bool)
        ensures
            ok == self@.wf(),
    {
        names_are_distinct(&self.options)
    }
}

/// Whether instance ids are unique and every instance is well formed.
pub fn instances_are_well_formed(instances: &Vec<(String, DeviceInstanceSettings)>) -> (ok: bool)
    ensures
        ok == instances_wf(instances.deep_view()),
{
    if !names_are_distinct(instances) {
        return false;
    }
    let ghost keyed = instances.deep_view();
    let mut i: usize = 0;
    while i < instances.len()
        invariant
            i <= instances.len(),
            keyed == instances.deep_view(),
            distinct_keys(keyed),
            forall|k: int| 0 <= k < i ==> (#[trigger] keyed[k]).1.wf(),
        decreases instances.len() - i,
    {
        if !instances[i].1.is_well_formed() {
            proof {
                assert(!keyed[i as int].1.wf());
            }
            return false;
        }
        i += 1;
    }
    true
}

/// A mapping from joystick instance ids to settings, as a sequence of pairs.
pub type InstancesView = Seq<(Seq<char>, DeviceInstanceView)>;

/// Every instance is well formed and no instance id occurs twice.
pub open spec fn instances_wf(instances: InstancesView) -> bool {
    &&& distinct_keys(instances)
    &&& forall|i: int| 0 <= i < instances.len() ==> (#[trigger] instances[i]).1.wf()
}

/// Settings for all joystick instances, by instance number.
#[derive(Debug, Clone)]
pub struct JoystickSettings {
    pub instances: Vec<(String, DeviceInstanceSettings)>,
}

impl View for JoystickSettings {
    type V = InstancesView;

    open spec fn view(&self) -> InstancesView {
        self.instances.deep_view()
    }
}

impl Default for JoystickSettings {
    fn default() -> (settings: JoystickSettings)
        ensures
            settings@ == Seq::<(Seq<char>, DeviceInstanceView)>::empty(),
    {
        JoystickSettings { instances: Vec::new() }
    }
}

/// All device settings of a profile.
#[derive(Debug, Clone)]
pub struct DeviceSettings {
    pub keyboard: Option<DeviceInstanceSettings>,
    pub gamepad: Option<DeviceInstanceSettings>,
    /// Joystick instances, by the instance id that the game assigned.
    pub joystick: Option<Vec<(String, DeviceInstanceSettings)>>,
}

/// What a [`DeviceSettings`] stands for.
pub struct DeviceSettingsView {
    pub keyboard: Option<DeviceInstanceView>,
    pub gamepad: Option<DeviceInstanceView>,
    pub joystick: Option<InstancesView>,
}

impl DeviceSettingsView {
    /// No device at all.
    pub open spec fn none() -> DeviceSettingsView {
        DeviceSettingsView { keyboard: None, gamepad: None, joystick: None }
    }

    /// Every mapping in it has unique keys.
    pub open spec fn wf(self) -> bool {
        &&& self.keyboard matches Some(k) ==> k.wf()
        &&& self.gamepad matches Some(g) ==> g.wf()
        &&& self.joystick matches Some(j) ==> instances_wf(j)
    }
}

impl View for DeviceSettings {
    type V = DeviceSettingsView;

    open spec fn view(&self) -> DeviceSettingsView {
        DeviceSettingsView {
            keyboard: self.keyboard.deep_view(),
            gamepad: self.gamepad.deep_view(),
            joystick: self.joystick.deep_view(),
        }
    }
}

impl DeepView for DeviceSettings {
    type V = DeviceSettingsView;

    open spec fn deep_view(&self) -> DeviceSettingsView {
        self.view()
    }
}

impl DeviceSettings {
    /// Whether every mapping in it has unique keys.
    pub fn is_well_formed(&self) -> (ok: bool)
        ensures
            ok == self@.wf(),
    {
        let keyboard = match &self.keyboard {
            Some(device) => device.is_well_formed(),
            None => true,
        };
        let gamepad = match &self.gamepad {
            Some(device) => device.is_well_formed(),
            None => true,
        };
        let joystick = match &self.joystick {
            Some(instances) => instances_are_well_formed(instances),
            None => true,
        };
        keyboard && gamepad && joystick
    }
}

impl Default for DeviceSettings {
    fn default() -> (devices: DeviceSettings)
        ensures
            devices@ == DeviceSettingsView::none(),
    {
        DeviceSettings { keyboard: None, gamepad: None, joystick: None }
    }
}

/// A saved profile.
#[derive(Debug, Clone)]
pub struct ControlsFile {
    /// File format version.
    pub version: String,
    /// Profile name for display.
    pub profile_name: String,
    /// Time of the last change, as an RFC 3339 timestamp.
    pub last_modified: Option<String>,
    /// Settings by device.
    pub devices: DeviceSettings,
}

/// What a [`ControlsFile`] stands for.
pub struct ControlsFileView {
    pub version: Seq<char>,
    pub profile_name: Seq<char>,
    pub last_modified: Option<Seq<char>>,
    pub devices: DeviceSettingsView,
}

impl ControlsFileView {
    /// Every mapping in it has unique keys.
    pub open spec fn wf(self) -> bool {
        self.devices.wf()
    }

    /// A profile without devices, of the current format version.
    pub open spec fn empty(profile_name: Seq<char>, last_modified: Seq<char>) -> ControlsFileView {
        ControlsFileView {
            version: CONTROLS_FILE_VERSION@,
            profile_name,
            last_modified: Some(last_modified),
            devices: DeviceSettingsView::none(),
        }
    }
}

impl View for ControlsFile {
    type V = ControlsFileView;

    open spec fn view(&self) -> ControlsFileView {
        ControlsFileView {
            version: self.version@,
            profile_name: self.profile_name@,
            last_modified: self.last_modified.deep_view(),
            devices: self.devices@,
        }
    }
}

impl DeepView for ControlsFile {
    type V = ControlsFileView;

    open spec fn deep_view(&self) -> ControlsFileView {
        self.view()
    }
}

impl ControlsFile {
    /// A profile without devices, stamped with the time given.
    pub fn with_timestamp(profile_name: String, last_modified: String) -> (file: ControlsFile)
        ensures
            file@ == ControlsFileView::empty(profile_name@, last_modified@),
            file@.wf(),
    {
        ControlsFile {
            version: CONTROLS_FILE_VERSION.to_string(),
            profile_name,
            last_modified: Some(last_modified),
            devices: DeviceSettings::default(),
        }
    }

    /// A profile without devices, stamped with the current time.
    pub fn new(profile_name: String) -> (file: ControlsFile)
        ensures
            file@.last_modified is Some,
            file@.last_modified->0.len() > 0,
            file@ == ControlsFileView::empty(profile_name@, file@.last_modified->0),
            file@.wf(),
    {
        ControlsFile::with_timestamp(profile_name, current_timestamp())
    }

    /// Whether every mapping in the profile has unique keys.
    pub fn is_well_formed(&self) -> (ok: bool)
        ensures
            ok == self@.wf(),
    {
        self.devices.is_well_formed()
    }

    /// Replaces the time of the last change and leaves the rest as it is.
    pub fn set_last_modified(&mut self, last_modified: String)
        ensures
            final(self)@ == (ControlsFileView {
                last_modified: Some(last_modified@),
                ..old(self)@
            }),
    {
        self.last_modified = Some(last_modified);
    }

    /// Sets the time of the last change to now.
    pub fn touch(&mut self)
        ensures
            final(self)@.last_modified is Some,
            final(self)@.last_modified->0.len() > 0,
            final(self)@ == (ControlsFileView {
                last_modified: final(self)@.last_modified,
                ..old(self)@
            }),
    {
        self.set_last_modified(current_timestamp());
    }
}

} // verus!
