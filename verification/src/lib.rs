//! Per-device control settings for a flight simulator's binding file.
//!
//! The crate holds three shapes of the same data and the conversions between
//! them: the settings model that is saved with a profile, the shape that a
//! user interface hands in and gets back, and the vendor's XML dialect, which
//! is scanned into and rendered from a model of its own.

pub mod actionmaps;
pub mod bridge;
mod clock;
pub mod errors;
pub mod frontend;
pub mod generate;
pub mod lexer;
pub mod model;
pub mod scan;
pub mod text;

pub use actionmaps::{
    ActionmapsControlOption, ActionmapsCurvePoint, ActionmapsDeviceOptions, ApplyControlsResult,
};
pub use bridge::{controls_to_actionmaps, convert_options_to_actionmaps};
pub use errors::{parse_failure_message, serialize_failure_message, syntax_error_message};
pub use frontend::input::{
    convert_options_map, ControlOptionInput, CurveInput, CurvePointInput, DeviceSettingsInput,
    SaveControlsInput,
};
pub use frontend::output::{
    convert_device_to_output, ControlOptionOutput, CurveOutputData, CurvePointOutput,
    DeviceSettingsOutput, LoadControlsOutput,
};
pub use generate::generate_options_xml;
pub use lexer::{RawAttribute, XmlEvent};
pub use model::{
    ControlOptionSettings, ControlsFile, CurveData, CurvePoint, DeviceInstanceSettings,
    DeviceSettings, JoystickSettings, Scalar, CONTROLS_FILE_VERSION,
};
pub use scan::{devices_from_events, parse_actionmaps_options, OptionsScanner};
