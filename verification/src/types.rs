//! The data model: raw samples from the device, serial-port descriptions,
//! connection status, channel-to-target mappings, audio sessions, the mixer
//! view projection, and the persisted configuration document.

use crate::volume;
use vstd::prelude::*;

verus! {

/// A copy of a string with the same characters.
pub fn clone_string(s: &String) -> (r: String)
    ensures
        r@ == s@,
{
    let mut r = String::new();
    r.append(s.as_str());
    r
}

/// A copy of an optional string with the same characters.
pub fn clone_opt_string(s: &Option<String>) -> (r: Option<String>)
    ensures
        r.deep_view() == s.deep_view(),
{
    match s {
        Some(n) => Some(clone_string(n)),
        None => None,
    }
}

/// One synchronized reading of the three physical sliders, as raw
/// analog-to-digital values (nominally `0..=FULL_SCALE`).
#[derive(Debug, Clone, Copy, PartialEq, Eq, Structural)]
pub struct PotentiometerData {
    pub pot1: u16,
    pub pot2: u16,
    pub pot3: u16,
}

impl PotentiometerData {
    /// The three readings as quantized percentages, in channel order.
    pub fn to_percentages(&self) -> (r: (u32, u32, u32))
        ensures
            r.0 == volume::spec_percentage(self.pot1 as int),
            r.1 == volume::spec_percentage(self.pot2 as int),
            r.2 == volume::spec_percentage(self.pot3 as int),
    {
        (
            volume::percentage(self.pot1),
            volume::percentage(self.pot2),
            volume::percentage(self.pot3),
        )
    }
}

/// A serial-capable interface as shown to the presentation layer.
#[derive(Debug, Clone)]
pub struct SerialPortInfo {
    pub port_name: String,
    pub description: String,
}

/// Everything the discovery heuristic reads of one enumerated serial
/// interface: the OS-assigned name and, for USB interfaces, the descriptor
/// strings.  The adapter that enumerates ports fills one of these per
/// interface.
#[derive(Debug, Clone)]
pub struct PortDescriptor {
    pub port_name: String,
    pub is_usb: bool,
    pub product: Option<String>,
    pub manufacturer: Option<String>,
}

/// A point-in-time snapshot of the device link's state.
#[derive(Debug, Clone)]
pub struct ConnectionStatus {
    pub connected: bool,
    pub port: Option<String>,
    pub error: Option<String>,
}

/// The value of a [`ChannelMapping`], with the process name as a character
/// sequence.  Contracts about the mapping table speak of these values.
pub ghost struct ChannelMappingView {
    pub channel_id: usize,
    pub is_master: bool,
    pub process_id: Option<u32>,
    pub process_name: Option<Seq<char>>,
}

impl ChannelMappingView {
    /// The data-model invariant: channel ids are positive, and a master
    /// mapping carries no process id.
    pub open spec fn wf(self) -> bool {
        self.channel_id >= 1 && (self.is_master ==> self.process_id is None)
    }
}

/// One channel-to-target assignment.  A mapping either drives the master
/// volume (`is_master`, no process id) or one application's volume.
#[derive(Debug, Clone)]
pub struct ChannelMapping {
    pub channel_id: usize,
    pub is_master: bool,
    pub process_id: Option<u32>,
    pub process_name: Option<String>,
}

impl DeepView for ChannelMapping {
    type V = ChannelMappingView;

    open spec fn deep_view(&self) -> ChannelMappingView {
        ChannelMappingView {
            channel_id: self.channel_id,
            is_master: self.is_master,
            process_id: self.process_id,
            process_name: self.process_name.deep_view(),
        }
    }
}

impl ChannelMapping {
    /// The data-model invariant, stated on the mapping's value.
    pub open spec fn wf(self) -> bool {
        self.deep_view().wf()
    }

    /// Runtime check of [`Self::wf`], for callers that receive a mapping from
    /// outside the library.
    pub fn is_wf(&self) -> (r: bool)
        ensures
            r == self.wf(),
    {
        self.channel_id >= 1 && (!self.is_master || self.process_id.is_none())
    }
}

/// The value of an [`AudioSession`], with strings as character sequences.
/// Session lists are compared as multisets of these values.
pub ghost struct AudioSessionView {
    pub process_id: u32,
    pub process_name: Seq<char>,
    pub display_name: Seq<char>,
    pub volume: u32,
    pub is_muted: bool,
}

/// An OS-level audio-producing entity with its own volume and mute state.
/// The entry with `process_id == 0`, if present, stands for the system master
/// volume and is never matched against per-application mappings.  Volumes are
/// percentages in `0..=100`.
#[derive(Debug, Clone)]
pub struct AudioSession {
    pub process_id: u32,
    pub process_name: String,
    pub display_name: String,
    pub volume: u32,
    pub is_muted: bool,
}

impl View for AudioSession {
    type V = AudioSessionView;

    open spec fn view(&self) -> AudioSessionView {
        AudioSessionView {
            process_id: self.process_id,
            process_name: self.process_name@,
            display_name: self.display_name@,
            volume: self.volume,
            is_muted: self.is_muted,
        }
    }
}

impl DeepView for AudioSession {
    type V = AudioSessionView;

    open spec fn deep_view(&self) -> AudioSessionView {
        self@
    }
}

impl PartialEq for AudioSession {
    /// Structural value comparison: field by field, strings by contents.
    fn eq(&self, other: &Self) -> (r: bool) {
        self.process_id == other.process_id && self.volume == other.volume
            && self.is_muted == other.is_muted && self.process_name == other.process_name
            && self.display_name == other.display_name
    }
}

impl vstd::std_specs::cmp::PartialEqSpecImpl for AudioSession {
    open spec fn obeys_eq_spec() -> bool {
        true
    }

    open spec fn eq_spec(&self, other: &Self) -> bool {
        self@ == other@
    }
}

/// One slot of the mixer as projected for the presentation layer.
#[derive(Debug, Clone)]
pub struct MixerChannel {
    pub id: usize,
    pub value: u32,
    pub is_physical: bool,
    pub mapped_app: Option<String>,
    pub app_process_id: Option<u32>,
}

/// The persisted configuration document: the mapping table plus presentation
/// preferences.
#[derive(Debug, Clone)]
pub struct AppConfig {
    pub channel_mappings: Vec<ChannelMapping>,
    pub start_with_windows: bool,
    pub minimize_to_tray: bool,
    pub auto_connect: bool,
    pub theme: String,
}

} // verus!
