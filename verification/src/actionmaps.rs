//! The vendor dialect as data: device blocks, their control options, and the
//! points of a response curve. Every value is kept as the text the vendor
//! file holds, and every sequence keeps its order.

use vstd::prelude::*;

verus! {

/// One point of a response curve, both coordinates as written in the file.
#[derive(Debug, Clone, PartialEq, Eq)]
pub struct ActionmapsCurvePoint {
    pub in_val: String,
    pub out_val: String,
}

/// What an [`ActionmapsCurvePoint`] stands for.
pub struct CurvePointText {
    pub in_val: Seq<char>,
    pub out_val: Seq<char>,
}

impl View for ActionmapsCurvePoint {
    type V = CurvePointText;

    open spec fn view(&self) -> CurvePointText {
        CurvePointText { in_val: self.in_val@, out_val: self.out_val@ }
    }
}

impl DeepView for ActionmapsCurvePoint {
    type V = CurvePointText;

    open spec fn deep_view(&self) -> CurvePointText {
        self.view()
    }
}

/// One control option element: its tag name, its attributes in the order
/// they are written, and the points of its curve, if it has one.
#[derive(Debug, Clone, PartialEq, Eq)]
pub struct ActionmapsControlOption {
    pub name: String,
    pub attributes: Vec<(String, String)>,
    pub curve_points: Vec<ActionmapsCurvePoint>,
}

/// What an [`ActionmapsControlOption`] stands for.
pub struct ControlOptionText {
    pub name: Seq<char>,
    pub attributes: Seq<(Seq<char>, Seq<char>)>,
    pub curve_points: Seq<CurvePointText>,
}

impl ControlOptionText {
    /// An option is written out only if it carries an attribute or a curve.
    pub open spec fn is_emitted(self) -> bool {
        self.attributes.len() > 0 || self.curve_points.len() > 0
    }
}

impl View for ActionmapsControlOption {
    type V = ControlOptionText;

    open spec fn view(&self) -> ControlOptionText {
        ControlOptionText {
            name: self.name@,
            attributes: self.attributes.deep_view(),
            curve_points: self.curve_points.deep_view(),
        }
    }
}

impl DeepView for ActionmapsControlOption {
    type V = ControlOptionText;

    open spec fn deep_view(&self) -> ControlOptionText {
        self.view()
    }
}

/// One `options` block of the vendor file: the device it belongs to and
/// the control options set for it.
#[derive(Debug, Clone, PartialEq, Eq)]
pub struct ActionmapsDeviceOptions {
    pub device_type: String,
    pub instance: String,
    pub product: String,
    pub options: Vec<ActionmapsControlOption>,
}

/// What an [`ActionmapsDeviceOptions`] stands for.
pub struct DeviceOptionsText {
    pub device_type: Seq<char>,
    pub instance: Seq<char>,
    pub product: Seq<char>,
    pub options: Seq<ControlOptionText>,
}

impl View for ActionmapsDeviceOptions {
    type V = DeviceOptionsText;

    open spec fn view(&self) -> DeviceOptionsText {
        DeviceOptionsText {
            device_type: self.device_type@,
            instance: self.instance@,
            product: self.product@,
            options: self.options.deep_view(),
        }
    }
}

impl DeepView for ActionmapsDeviceOptions {
    type V = DeviceOptionsText;

    open spec fn deep_view(&self) -> DeviceOptionsText {
        self.view()
    }
}

/// The outcome of writing a profile into the vendor file, as reported to
/// the user interface.
#[derive(Debug)]
pub struct ApplyControlsResult {
    pub success: bool,
    pub backup_path: Option<String>,
    pub message: String,
}

} // verus!
