//! The scan of the vendor file: one pass over the lexer's events that
//! collects the device blocks and leaves everything else aside.
//!
//! The scan keeps track of three things: the device block that is open, the
//! control option that is open, and whether it is inside a
//! `nonlinearity_curve`. Each changes on its own tags, whatever the other
//! two hold: a curve that opens outside any option still suspends the
//! reading of options until it closes, and an option stays open when the
//! device around it is replaced or closed. So the three are kept side by
//! side, and [`ScanView::step`] says what every event does in every state.
//!
//! A tag with a malformed attribute is malformed XML: the scan stops at the
//! first one it is fed and reports the lexer's diagnostic.

use vstd::prelude::*;
use vstd::string::StringSliceAdditionalSpecFns;
use crate::actionmaps::{
    ActionmapsControlOption, ActionmapsCurvePoint, ActionmapsDeviceOptions, ControlOptionText,
    CurvePointText, DeviceOptionsText,
};
use crate::errors::{syntax_error_message, syntax_error_text};
use crate::lexer::{
    open_reader, pending, read_event, read_tag, xml_stream, LexerEvent, RawAttribute,
    RawAttributeView, RawAttributes, XmlEvent, XmlEventView,
};
use crate::text::{bytes_are, lossy_text, text_of};

verus! {

/// The tag name of a device block.
pub open spec fn options_tag() -> Seq<u8> {
    "options".spec_bytes()
}

/// The tag name of a curve.
pub open spec fn curve_tag() -> Seq<u8> {
    "nonlinearity_curve".spec_bytes()
}

/// The tag name of a curve point.
pub open spec fn point_tag() -> Seq<u8> {
    "point".spec_bytes()
}

/// The diagnostic of the first malformed attribute of a tag, if any of its
/// attributes is malformed.
pub open spec fn first_malformed_attribute(attributes: RawAttributes) -> Option<Seq<char>>
    decreases attributes.len(),
{
    if attributes.len() == 0 {
        None
    } else {
        match first_malformed_attribute(attributes.drop_last()) {
            Some(diagnostic) => Some(diagnostic),
            None => match attributes.last() {
                RawAttributeView::Malformed { diagnostic } => Some(diagnostic),
                RawAttributeView::Pair { .. } => None,
            },
        }
    }
}

/// The diagnostic of the first malformed attribute of an event, if the
/// event is a tag and an attribute of it is malformed.
pub open spec fn event_malformed(event: XmlEventView) -> Option<Seq<char>> {
    match event {
        XmlEventView::Start { attributes, .. } => first_malformed_attribute(attributes),
        XmlEventView::Empty { attributes, .. } => first_malformed_attribute(attributes),
        _ => None,
    }
}

/// The diagnostic of the first malformed attribute among the events, in
/// document order, if there is one.
pub open spec fn first_malformed(events: Seq<XmlEventView>) -> Option<Seq<char>>
    decreases events.len(),
{
    if events.len() == 0 {
        None
    } else {
        match first_malformed(events.drop_last()) {
            Some(diagnostic) => Some(diagnostic),
            None => event_malformed(events.last()),
        }
    }
}

/// The value of the attribute with the key given, as text; empty if there
/// is no such attribute. The lexer hands out a key once and reports its
/// return as malformed; of pairs that are put together otherwise, the last
/// with the key counts.
pub open spec fn attribute_value(attributes: RawAttributes, key: Seq<u8>) -> Seq<char>
    decreases attributes.len(),
{
    if attributes.len() == 0 {
        Seq::empty()
    } else {
        match attributes.last() {
            RawAttributeView::Pair { key: found, value } if found == key => text_of(value),
            _ => attribute_value(attributes.drop_last(), key),
        }
    }
}

/// One attribute as text, if it is one.
pub open spec fn attribute_text(attribute: RawAttributeView) -> Option<(Seq<char>, Seq<char>)> {
    match attribute {
        RawAttributeView::Pair { key, value } => Some((text_of(key), text_of(value))),
        RawAttributeView::Malformed { .. } => None,
    }
}

/// The attributes of a tag as text, in their order.
pub open spec fn attribute_texts(attributes: RawAttributes) -> Seq<(Seq<char>, Seq<char>)> {
    attributes.filter_map(|a: RawAttributeView| attribute_text(a))
}

/// The device that an `options` tag opens: `type`, `instance` and `Product`
/// from its attributes, and no option yet.
pub open spec fn device_of_tag(attributes: RawAttributes) -> DeviceOptionsText {
    DeviceOptionsText {
        device_type: attribute_value(attributes, "type".spec_bytes()),
        instance: attribute_value(attributes, "instance".spec_bytes()),
        product: attribute_value(attributes, "Product".spec_bytes()),
        options: Seq::empty(),
    }
}

/// The control option that a tag opens: its name, all its attributes in
/// their order, and no curve point yet.
pub open spec fn option_of_tag(name: Seq<u8>, attributes: RawAttributes) -> ControlOptionText {
    ControlOptionText {
        name: text_of(name),
        attributes: attribute_texts(attributes),
        curve_points: Seq::empty(),
    }
}

/// The curve point that a `point` tag gives: `in` and `out` from its
/// attributes.
pub open spec fn point_of_tag(attributes: RawAttributes) -> CurvePointText {
    CurvePointText {
        in_val: attribute_value(attributes, "in".spec_bytes()),
        out_val: attribute_value(attributes, "out".spec_bytes()),
    }
}

/// A device with one more option at the end.
pub open spec fn with_option(
    device: DeviceOptionsText,
    option: ControlOptionText,
) -> DeviceOptionsText {
    DeviceOptionsText { options: device.options.push(option), ..device }
}

/// A control option with one more curve point at the end.
pub open spec fn with_point(option: ControlOptionText, point: CurvePointText) -> ControlOptionText {
    ControlOptionText { curve_points: option.curve_points.push(point), ..option }
}

/// Where a scan stands.
pub struct ScanView {
    /// The device blocks that are complete, in document order.
    pub devices: Seq<DeviceOptionsText>,
    /// The device block that is open.
    pub device: Option<DeviceOptionsText>,
    /// The control option that is open.
    pub option: Option<ControlOptionText>,
    /// Whether the scan is inside a `nonlinearity_curve`.
    pub in_curve: bool,
}

impl ScanView {
    /// Before the first event.
    pub open spec fn initial() -> ScanView {
        ScanView { devices: Seq::empty(), device: None, option: None, in_curve: false }
    }

    /// After an opening tag.
    pub open spec fn after_start(self, name: Seq<u8>, attributes: RawAttributes) -> ScanView {
        if name == options_tag() {
            ScanView { device: Some(device_of_tag(attributes)), ..self }
        } else if name == curve_tag() {
            ScanView { in_curve: true, ..self }
        } else if self.device is Some && !self.in_curve {
            ScanView { option: Some(option_of_tag(name, attributes)), ..self }
        } else {
            self
        }
    }

    /// After a self-closing tag.
    pub open spec fn after_empty(self, name: Seq<u8>, attributes: RawAttributes) -> ScanView {
        if name == options_tag() {
            ScanView { devices: self.devices.push(device_of_tag(attributes)), ..self }
        } else if name == point_tag() && self.in_curve {
            match self.option {
                Some(option) => ScanView {
                    option: Some(with_point(option, point_of_tag(attributes))),
                    ..self
                },
                None => self,
            }
        } else if self.device is Some && !self.in_curve {
            ScanView {
                device: Some(with_option(self.device->0, option_of_tag(name, attributes))),
                ..self
            }
        } else {
            self
        }
    }

    /// After a closing tag.
    pub open spec fn after_end(self, name: Seq<u8>) -> ScanView {
        if name == options_tag() {
            match self.device {
                Some(device) => ScanView {
                    devices: self.devices.push(device),
                    device: None,
                    ..self
                },
                None => self,
            }
        } else if name == curve_tag() {
            ScanView { in_curve: false, ..self }
        } else if self.option is Some && !self.in_curve {
            ScanView {
                device: match self.device {
                    Some(device) => Some(with_option(device, self.option->0)),
                    None => None,
                },
                option: None,
                ..self
            }
        } else {
            self
        }
    }

    /// After one more event.
    pub open spec fn step(self, event: XmlEventView) -> ScanView {
        match event {
            XmlEventView::Start { name, attributes } => self.after_start(name, attributes),
            XmlEventView::Empty { name, attributes } => self.after_empty(name, attributes),
            XmlEventView::End { name } => self.after_end(name),
            XmlEventView::Eof => self,
            XmlEventView::Other => self,
        }
    }
}

/// Where the scan stands after the events given, starting afresh.
pub open spec fn scan_events(events: Seq<XmlEventView>) -> ScanView
    decreases events.len(),
{
    if events.len() == 0 {
        ScanView::initial()
    } else {
        scan_events(events.drop_last()).step(events.last())
    }
}

/// The device blocks that a scan of the events given collects: those that
/// were closed, in document order.
pub open spec fn devices_of_events(events: Seq<XmlEventView>) -> Seq<DeviceOptionsText> {
    scan_events(events).devices
}

/// What is malformed stays malformed: the first malformed attribute of a
/// list is the first of any list that goes on from it.
pub proof fn lemma_first_malformed_attribute_stays(front: RawAttributes, back: RawAttributes)
    requires
        first_malformed_attribute(front) is Some,
    ensures
        first_malformed_attribute(front + back) == first_malformed_attribute(front),
    decreases back.len(),
{
    if back.len() > 0 {
        assert((front + back).drop_last() == front + back.drop_last());
        lemma_first_malformed_attribute_stays(front, back.drop_last());
    } else {
        assert(front + back == front);
    }
}

/// The first malformed attribute among some events is the first among any
/// events that go on from them.
pub proof fn lemma_first_malformed_stays(events: Seq<XmlEventView>, more: Seq<XmlEventView>)
    requires
        first_malformed(events) is Some,
    ensures
        first_malformed(events + more) == first_malformed(events),
    decreases more.len(),
{
    if more.len() > 0 {
        assert((events + more).drop_last() == events + more.drop_last());
        lemma_first_malformed_stays(events, more.drop_last());
    } else {
        assert(events + more == events);
    }
}

/// One more event never changes a device block that was closed before: the
/// blocks collected so far stay, in their order, at the front.
pub proof fn lemma_step_keeps_closed_devices(state: ScanView, event: XmlEventView)
    ensures
        state.devices.is_prefix_of(state.step(event).devices),
{
}

/// Document order: what a scan has collected after some events is the front
/// part of what it has collected after any events that follow.
pub proof fn lemma_closed_devices_stay(events: Seq<XmlEventView>, more: Seq<XmlEventView>)
    ensures
        devices_of_events(events).is_prefix_of(devices_of_events(events + more)),
    decreases more.len(),
{
    if more.len() > 0 {
        let all = events + more;
        assert(all.drop_last() == events + more.drop_last());
        lemma_closed_devices_stay(events, more.drop_last());
        lemma_step_keeps_closed_devices(scan_events(all.drop_last()), all.last());
    } else {
        assert(events + more == events);
    }
}

/// Self-closing equivalence: where no device block is open, a self-closing
/// `options` tag leaves the scan where an opening `options` tag with the
/// same attributes, closed at once, leaves it: with one more device, which
/// has no options.
pub proof fn lemma_self_closing_options_is_open_close(
    events: Seq<XmlEventView>,
    attributes: RawAttributes,
)
    requires
        scan_events(events).device is None,
    ensures
        scan_events(events.push(XmlEventView::Empty { name: options_tag(), attributes }))
            == scan_events(
            events.push(XmlEventView::Start { name: options_tag(), attributes }).push(
                XmlEventView::End { name: options_tag() },
            ),
        ),
        devices_of_events(events.push(XmlEventView::Empty { name: options_tag(), attributes }))
            == devices_of_events(events).push(device_of_tag(attributes)),
        device_of_tag(attributes).options.len() == 0,
{
    let empty = XmlEventView::Empty { name: options_tag(), attributes };
    let start = XmlEventView::Start { name: options_tag(), attributes };
    let end = XmlEventView::End { name: options_tag() };
    let before = scan_events(events);
    assert(events.push(empty).drop_last() == events);
    assert(events.push(start).drop_last() == events);
    assert(scan_events(events.push(start)) == before.step(start));
    assert(events.push(start).push(end).drop_last() == events.push(start));
}

/// Looks for a malformed attribute and hands out the diagnostic of the
/// first.
fn malformed_attribute(attributes: &Vec<RawAttribute>) -> (found: Option<String>)
    ensures
        found.deep_view() == first_malformed_attribute(attributes.deep_view()),
{
    let ghost attrs = attributes.deep_view();
    let mut i: usize = 0;
    while i < attributes.len()
        invariant
            i <= attributes.len(),
            attrs == attributes.deep_view(),
            first_malformed_attribute(attrs.take(i as int)) is None,
        decreases attributes.len() - i,
    {
        proof {
            assert(attrs.take(i + 1).drop_last() == attrs.take(i as int));
            assert(attrs.take(i + 1).last() == attributes[i as int]@);
        }
        match &attributes[i] {
            RawAttribute::Malformed { diagnostic } => {
                proof {
                    assert(attrs == attrs.take(i + 1) + attrs.skip(i + 1));
                    lemma_first_malformed_attribute_stays(attrs.take(i + 1), attrs.skip(i + 1));
                }
                return Some(diagnostic.clone());
            },
            RawAttribute::Pair { .. } => {},
        }
        i += 1;
    }
    proof {
        assert(attrs.take(i as int) == attrs);
    }
    None
}

fn find_attribute(attributes: &Vec<RawAttribute>, key: &str) -> (value: String)
    ensures
        value@ == attribute_value(attributes.deep_view(), key.spec_bytes()),
{
    let ghost attrs = attributes.deep_view();
    let mut value = String::new();
    let mut i: usize = 0;
    while i < attributes.len()
        invariant
            i <= attributes.len(),
            attrs == attributes.deep_view(),
            value@ == attribute_value(attrs.take(i as int), key.spec_bytes()),
        decreases attributes.len() - i,
    {
        proof {
            assert(attrs.take(i + 1).drop_last() == attrs.take(i as int));
            assert(attrs.take(i + 1).last() == attributes[i as int]@);
        }
        match &attributes[i] {
            RawAttribute::Pair { key: found, value: raw } => {
                if bytes_are(found.as_slice(), key) {
                    value = lossy_text(raw.as_slice());
                }
            },
            RawAttribute::Malformed { .. } => {},
        }
        i += 1;
    }
    proof {
        assert(attrs.take(i as int) == attrs);
    }
    value
}

fn device_from_tag(attributes: &Vec<RawAttribute>) -> (device: ActionmapsDeviceOptions)
    ensures
        device@ == device_of_tag(attributes.deep_view()),
{
    let device = ActionmapsDeviceOptions {
        device_type: find_attribute(attributes, "type"),
        instance: find_attribute(attributes, "instance"),
        product: find_attribute(attributes, "Product"),
        options: Vec::new(),
    };
    proof {
        assert(device@.options =~= Seq::empty());
    }
    device
}

fn option_from_tag(name: &Vec<u8>, attributes: &Vec<RawAttribute>) -> (option:
    ActionmapsControlOption)
    ensures
        option@ == option_of_tag(name@, attributes.deep_view()),
{
    let ghost attrs = attributes.deep_view();
    let mut texts: Vec<(String, String)> = Vec::new();
    let mut i: usize = 0;
    while i < attributes.len()
        invariant
            i <= attributes.len(),
            attrs == attributes.deep_view(),
            texts.deep_view() == attribute_texts(attrs.take(i as int)),
        decreases attributes.len() - i,
    {
        proof {
            assert(attrs.take(i + 1).drop_last() == attrs.take(i as int));
            assert(attrs.take(i + 1).last() == attributes[i as int]@);
        }
        match &attributes[i] {
            RawAttribute::Pair { key, value } => {
                let ghost before = texts.deep_view();
                let pair = (lossy_text(key.as_slice()), lossy_text(value.as_slice()));
                texts.push(pair);
                proof {
                    assert(texts.deep_view() =~= before + seq![(text_of(key@), text_of(value@))]);
                }
            },
            RawAttribute::Malformed { .. } => {},
        }
        i += 1;
    }
    proof {
        assert(attrs.take(i as int) == attrs);
    }
    let option = ActionmapsControlOption {
        name: lossy_text(name.as_slice()),
        attributes: texts,
        curve_points: Vec::new(),
    };
    proof {
        assert(option@.curve_points =~= Seq::empty());
    }
    option
}

fn point_from_tag(attributes: &Vec<RawAttribute>) -> (point: ActionmapsCurvePoint)
    ensures
        point@ == point_of_tag(attributes.deep_view()),
{
    ActionmapsCurvePoint {
        in_val: find_attribute(attributes, "in"),
        out_val: find_attribute(attributes, "out"),
    }
}

fn add_option(device: ActionmapsDeviceOptions, option: ActionmapsControlOption) -> (result:
    ActionmapsDeviceOptions)
    ensures
        result@ == with_option(device@, option@),
{
    let mut device = device;
    let ghost before = device.options.deep_view();
    device.options.push(option);
    proof {
        assert(device.options.deep_view() =~= before.push(option@));
    }
    device
}

fn add_point(option: ActionmapsControlOption, point: ActionmapsCurvePoint) -> (result:
    ActionmapsControlOption)
    ensures
        result@ == with_point(option@, point@),
{
    let mut option = option;
    let ghost before = option.curve_points.deep_view();
    option.curve_points.push(point);
    proof {
        assert(option.curve_points.deep_view() =~= before.push(point@));
    }
    option
}

/// A scan in progress. Events are fed one by one; the device blocks that
/// were closed are handed out at the end.
pub struct OptionsScanner {
    devices: Vec<ActionmapsDeviceOptions>,
    current_device: Option<ActionmapsDeviceOptions>,
    current_option: Option<ActionmapsControlOption>,
    in_curve: bool,
}

impl View for OptionsScanner {
    type V = ScanView;

    closed spec fn view(&self) -> ScanView {
        ScanView {
            devices: self.devices.deep_view(),
            device: self.current_device.deep_view(),
            option: self.current_option.deep_view(),
            in_curve: self.in_curve,
        }
    }
}

impl OptionsScanner {
    /// A scan before its first event.
    pub fn new() -> (scanner: OptionsScanner)
        ensures
            scanner@ == ScanView::initial(),
    {
        let scanner = OptionsScanner {
            devices: Vec::new(),
            current_device: None,
            current_option: None,
            in_curve: false,
        };
        proof {
            assert(scanner.devices.deep_view() =~= Seq::empty());
        }
        scanner
    }

    fn push_device(&mut self, device: ActionmapsDeviceOptions)
        ensures
            final(self)@ == (ScanView { devices: old(self)@.devices.push(device@), ..old(self)@ }),
    {
        let ghost before = self.devices.deep_view();
        self.devices.push(device);
        proof {
            assert(self.devices.deep_view() =~= before.push(device@));
        }
    }

    fn start(&mut self, name: &Vec<u8>, attributes: &Vec<RawAttribute>)
        ensures
            final(self)@ == old(self)@.after_start(name@, attributes.deep_view()),
    {
        if bytes_are(name.as_slice(), "options") {
            self.current_device = Some(device_from_tag(attributes));
        } else if bytes_are(name.as_slice(), "nonlinearity_curve") {
            self.in_curve = true;
        } else if self.current_device.is_some() && !self.in_curve {
            self.current_option = Some(option_from_tag(name, attributes));
        }
    }

    fn empty(&mut self, name: &Vec<u8>, attributes: &Vec<RawAttribute>)
        ensures
            final(self)@ == old(self)@.after_empty(name@, attributes.deep_view()),
    {
        if bytes_are(name.as_slice(), "options") {
            self.push_device(device_from_tag(attributes));
        } else if bytes_are(name.as_slice(), "point") && self.in_curve {
            match self.current_option.take() {
                Some(option) => {
                    self.current_option = Some(add_point(option, point_from_tag(attributes)));
                },
                None => {},
            }
        } else if self.current_device.is_some() && !self.in_curve {
            match self.current_device.take() {
                Some(device) => {
                    self.current_device = Some(
                        add_option(device, option_from_tag(name, attributes)),
                    );
                },
                None => {},
            }
        }
    }

    fn end(&mut self, name: &Vec<u8>)
        ensures
            final(self)@ == old(self)@.after_end(name@),
    {
        if bytes_are(name.as_slice(), "options") {
            match self.current_device.take() {
                Some(device) => {
                    self.push_device(device);
                },
                None => {},
            }
        } else if bytes_are(name.as_slice(), "nonlinearity_curve") {
            self.in_curve = false;
        } else if self.current_option.is_some() && !self.in_curve {
            match self.current_option.take() {
                Some(option) => {
                    match self.current_device.take() {
                        Some(device) => {
                            self.current_device = Some(add_option(device, option));
                        },
                        None => {},
                    }
                },
                None => {},
            }
        }
    }

    /// Takes one more event. A tag with a malformed attribute is refused,
    /// with the lexer's diagnostic of the first such attribute, and leaves
    /// the scan where it was.
    pub fn feed(&mut self, event: &XmlEvent) -> (res: Result<(), String>)
        ensures
            match res {
                Ok(_) => event_malformed(event@) is None && final(self)@ == old(self)@.step(
                    event@,
                ),
                Err(message) => event_malformed(event@) is Some && message@ == syntax_error_text(
                    event_malformed(event@)->0,
                ) && final(self)@ == old(self)@,
            },
    {
        match event {
            XmlEvent::Start { name, attributes } => {
                match malformed_attribute(attributes) {
                    Some(diagnostic) => {
                        return Err(syntax_error_message(diagnostic.as_str()));
                    },
                    None => {},
                }
                self.start(name, attributes);
            },
            XmlEvent::Empty { name, attributes } => {
                match malformed_attribute(attributes) {
                    Some(diagnostic) => {
                        return Err(syntax_error_message(diagnostic.as_str()));
                    },
                    None => {},
                }
                self.empty(name, attributes);
            },
            XmlEvent::End { name } => self.end(name),
            XmlEvent::Eof => {},
            XmlEvent::Other => {},
        }
        Ok(())
    }

    /// Ends the scan and hands out the device blocks that were closed. A
    /// block that is still open is not among them.
    pub fn finish(self) -> (devices: Vec<ActionmapsDeviceOptions>)
        ensures
            devices.deep_view() == self@.devices,
    {
        self.devices
    }
}

/// Collects the device blocks from a sequence of events. Fails at the
/// first tag with a malformed attribute, with the lexer's diagnostic.
pub fn devices_from_events(events: &Vec<XmlEvent>) -> (res: Result<
    Vec<ActionmapsDeviceOptions>,
    String,
>)
    ensures
        match res {
            Ok(devices) => first_malformed(events.deep_view()) is None && devices.deep_view()
                == devices_of_events(events.deep_view()),
            Err(message) => first_malformed(events.deep_view()) is Some && message@
                == syntax_error_text(first_malformed(events.deep_view())->0),
        },
{
    let ghost source = events.deep_view();
    let mut scanner = OptionsScanner::new();
    let mut i: usize = 0;
    while i < events.len()
        invariant
            i <= events.len(),
            source == events.deep_view(),
            first_malformed(source.take(i as int)) is None,
            scanner@ == scan_events(source.take(i as int)),
        decreases events.len() - i,
    {
        proof {
            assert(source.take(i + 1).drop_last() == source.take(i as int));
            assert(source.take(i + 1).last() == events[i as int]@);
        }
        match scanner.feed(&events[i]) {
            Ok(_) => {},
            Err(message) => {
                proof {
                    assert(source == source.take(i + 1) + source.skip(i + 1));
                    lemma_first_malformed_stays(source.take(i + 1), source.skip(i + 1));
                }
                return Err(message);
            },
        }
        i += 1;
    }
    proof {
        assert(source.take(i as int) == source);
    }
    Ok(scanner.finish())
}

/// Reads the device blocks out of the text of a vendor file.
///
/// The text is cut into events by the lexer. Where the lexer gets through
/// to the end of the text and no tag on the way has a malformed attribute,
/// the result is what the scan collects from the events. Otherwise the text
/// is malformed XML, and the result is an error message with the lexer's
/// diagnostic: that of the first malformed attribute, or else that of the
/// error at which the lexer stops.
pub fn parse_actionmaps_options(xml: &str) -> (res: Result<Vec<ActionmapsDeviceOptions>, String>)
    ensures
        match res {
            Ok(devices) => xml_stream(xml@).reaches_end && first_malformed(xml_stream(xml@).events)
                is None && devices.deep_view() == devices_of_events(xml_stream(xml@).events),
            Err(message) => match first_malformed(xml_stream(xml@).events) {
                Some(diagnostic) => message@ == syntax_error_text(diagnostic),
                None => !xml_stream(xml@).reaches_end && message@ == syntax_error_text(
                    xml_stream(xml@).failure,
                ),
            },
        },
{
    let mut reader = open_reader(xml);
    let mut scanner = OptionsScanner::new();
    let ghost all = xml_stream(xml@);
    let ghost mut seen: Seq<XmlEventView> = Seq::empty();
    loop
        invariant
            all == xml_stream(xml@),
            pending(reader).reaches_end == all.reaches_end,
            pending(reader).failure == all.failure,
            seen + pending(reader).events == all.events,
            first_malformed(seen) is None,
            scanner@ == scan_events(seen),
        decreases pending(reader).events.len(),
    {
        let ghost before = pending(reader).events;
        match read_event(&mut reader) {
            Ok(raw) => {
                if let LexerEvent::Eof = raw {
                    proof {
                        assert(seen + before == seen);
                    }
                    return Ok(scanner.finish());
                }
                let event = read_tag(raw);
                proof {
                    assert(seen.push(event@).drop_last() == seen);
                    assert(seen.push(event@) + before.drop_first() == seen + before);
                }
                match scanner.feed(&event) {
                    Ok(_) => {},
                    Err(message) => {
                        proof {
                            lemma_first_malformed_stays(seen.push(event@), before.drop_first());
                        }
                        return Err(message);
                    },
                }
                proof {
                    seen = seen.push(event@);
                }
            },
            Err(diagnostic) => {
                proof {
                    assert(seen + before == seen);
                }
                return Err(syntax_error_message(diagnostic.as_str()));
            },
        }
    }
}

} // verus!
