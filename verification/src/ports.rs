//! The ports a plugin advertises to its host: one stereo audio output and one
//! note input.

use vstd::prelude::*;

verus! {

/// The identifier that both advertised ports carry, each in its own direction.
pub const MAIN_PORT_ID: u32 = 1;

/// How many channels the audio output has: left and right.
pub const MAIN_CHANNEL_COUNT: u32 = 2;

/// The channel layout of an audio port.
#[derive(Clone, Copy, Debug, PartialEq, Eq, Structural)]
pub enum PortType {
    Mono,
    Stereo,
}

/// What the host is told about an audio port.
#[derive(Clone, Copy, Debug, PartialEq, Eq)]
pub struct AudioPortInfo {
    pub id: u32,
    pub name: &'static str,
    pub channel_count: u32,
    /// Whether this is the plugin's main port in its direction.
    pub is_main: bool,
    pub port_type: Option<PortType>,
    /// The port this one can share buffers with, if any.
    pub in_place_pair: Option<u32>,
}

/// A way of writing notes down as events.
#[derive(Clone, Copy, Debug, PartialEq, Eq, Structural)]
pub enum NoteDialect {
    Clap,
    Midi,
    MidiMpe,
    Midi2,
}

/// A set of note dialects.
#[derive(Clone, Copy, Debug, PartialEq, Eq, Structural)]
pub struct NoteDialects {
    pub clap: bool,
    pub midi: bool,
    pub midi_mpe: bool,
    pub midi2: bool,
}

/// What the host is told about a note port.
#[derive(Clone, Copy, Debug, PartialEq, Eq)]
pub struct NotePortInfo {
    pub id: u32,
    pub name: &'static str,
    pub supported_dialects: NoteDialects,
    pub preferred_dialect: Option<NoteDialect>,
}

/// Whether `info` describes the advertised audio output: the main port, named
/// "main", stereo, with no in-place pair.
pub open spec fn is_main_audio_output(info: AudioPortInfo) -> bool {
    &&& info.id == MAIN_PORT_ID
    &&& info.name@ == "main"@
    &&& info.channel_count == MAIN_CHANNEL_COUNT
    &&& info.is_main
    &&& info.port_type == Some(PortType::Stereo)
    &&& info.in_place_pair is None
}

/// Whether `info` describes the advertised note input: named "main", taking
/// the CLAP dialect and no other.
pub open spec fn is_main_note_input(info: NotePortInfo) -> bool {
    &&& info.id == MAIN_PORT_ID
    &&& info.name@ == "main"@
    &&& info.supported_dialects == (NoteDialects {
        clap: true,
        midi: false,
        midi_mpe: false,
        midi2: false,
    })
    &&& info.preferred_dialect == Some(NoteDialect::Clap)
}

} // verus!
