//! The shapes a user interface hands in and gets back, and the conversions
//! between them and the settings model.
//!
//! Going in, entries that say nothing are left out: an option with no field
//! set, a device without options, a joystick list without instances. What is
//! kept is kept whole, the fields that never reach the vendor file included.
//! Going out, nothing is filtered.

pub mod input;
pub mod output;

use vstd::prelude::*;
use crate::frontend::input::{
    file_from_input, lemma_silent_input_joystick_is_absent, lemma_silent_options_are_dropped,
    SaveControlsView,
};
use crate::frontend::output::output_from_file;
use crate::model::{all_silent, distinct_keys, OptionsView};

verus! {

/// What the devices of either user interface shape stand for: per device the
/// bare option mapping, without a product label.
pub struct FrontendDevicesView {
    pub keyboard: Option<OptionsView>,
    pub gamepad: Option<OptionsView>,
    pub joystick: Option<Seq<(Seq<char>, OptionsView)>>,
}

impl FrontendDevicesView {
    /// Every mapping in it has unique keys.
    pub open spec fn wf(self) -> bool {
        &&& self.keyboard matches Some(k) ==> distinct_keys(k)
        &&& self.gamepad matches Some(g) ==> distinct_keys(g)
        &&& self.joystick matches Some(j) ==> {
            &&& distinct_keys(j)
            &&& forall|i: int| 0 <= i < j.len() ==> distinct_keys((#[trigger] j[i]).1)
        }
    }
}

/// Emptiness filtering, there and back: a keyboard that comes in with
/// every option unset is not in the profile that is saved, and so is not
/// shown when that profile is loaded.
pub proof fn lemma_silent_keyboard_is_never_shown(input: SaveControlsView, last_modified: Seq<char>)
    requires
        input.devices.keyboard is Some,
        all_silent(input.devices.keyboard->0),
    ensures
        output_from_file(file_from_input(input, last_modified)).devices.keyboard is None,
{
    lemma_silent_options_are_dropped(input.devices.keyboard->0);
}

/// As [`lemma_silent_keyboard_is_never_shown`], for the gamepad.
pub proof fn lemma_silent_gamepad_is_never_shown(input: SaveControlsView, last_modified: Seq<char>)
    requires
        input.devices.gamepad is Some,
        all_silent(input.devices.gamepad->0),
    ensures
        output_from_file(file_from_input(input, last_modified)).devices.gamepad is None,
{
    lemma_silent_options_are_dropped(input.devices.gamepad->0);
}

/// As [`lemma_silent_keyboard_is_never_shown`], for the joystick instance
/// at position `at`: what is shown is what would be shown had the instance
/// not come in at all.
pub proof fn lemma_silent_joystick_is_never_shown(
    input: SaveControlsView,
    last_modified: Seq<char>,
    at: int,
)
    requires
        input.devices.joystick is Some,
        0 <= at < input.devices.joystick->0.len(),
        all_silent(input.devices.joystick->0[at].1),
    ensures
        output_from_file(file_from_input(input, last_modified)) == output_from_file(
            file_from_input(
                SaveControlsView {
                    devices: FrontendDevicesView {
                        joystick: Some(input.devices.joystick->0.remove(at)),
                        ..input.devices
                    },
                    ..input
                },
                last_modified,
            ),
        ),
{
    lemma_silent_input_joystick_is_absent(input, last_modified, at);
}

} // verus!
