//! A monophonic, sample-accurate synthesizer voice and the block scheduler
//! that drives it.
//!
//! The host hands over one block of audio and the timed note events that fall
//! into it. The scheduler cuts the block at the events, so that a change of
//! pitch takes effect at the very sample its event is stamped with, and the
//! voice renders each piece with its phase running on across the cuts.

pub mod oscillator;
pub mod output;
pub mod ports;
pub mod schedule;

use crate::oscillator::{Oscillator, Sample, SineOscillator, Voice};
use crate::output::{check_output, output_error, OutputPort, ProcessError, ProcessStatus};
use crate::ports::{
    is_main_audio_output, is_main_note_input, AudioPortInfo, NoteDialect, NoteDialects,
    NotePortInfo, PortType, MAIN_CHANNEL_COUNT, MAIN_PORT_ID,
};
use crate::schedule::{is_partition, run_block, views, BatchView, EventBatch};
use vstd::prelude::*;

verus! {

/// The plugin.
pub struct Wavy;

/// What all threads of the plugin share: nothing.
pub struct WavyShared {}

/// The plugin's state on the main thread.
pub struct WavyMainThread<'a> {
    shared: &'a WavyShared,
}

/// The plugin's state on the audio thread: the voice, owned by it alone from
/// activation to deactivation.
pub struct WavyAudioProcessor<'a> {
    osc: Box<dyn Oscillator>,
    shared: &'a WavyShared,
}

/// A host extension the plugin takes part in.
#[derive(Clone, Copy, Debug, PartialEq, Eq, Structural)]
pub enum Extension {
    AudioPorts,
    NotePorts,
}

/// A category the plugin files itself under.
#[derive(Clone, Copy, Debug, PartialEq, Eq, Structural)]
pub enum Feature {
    Instrument,
    Synthesizer,
    Stereo,
}

/// How the plugin presents itself to a host.
#[derive(Clone, Debug, PartialEq, Eq)]
pub struct Descriptor {
    pub id: &'static str,
    pub name: &'static str,
    pub vendor: &'static str,
    pub features: Vec<Feature>,
}

impl Wavy {
    /// The extensions the plugin declares: audio ports and note ports.
    pub fn declare_extensions() -> (extensions: Vec<Extension>)
        ensures
            extensions@ == seq![Extension::AudioPorts, Extension::NotePorts],
    {
        let mut extensions = Vec::new();
        extensions.push(Extension::AudioPorts);
        extensions.push(Extension::NotePorts);
        extensions
    }

    /// The plugin's descriptor: a stereo synthesizer instrument.
    pub fn get_descriptor() -> (descriptor: Descriptor)
        ensures
            descriptor.id@ == "com.valentinvignal.wavy"@,
            descriptor.name@ == "Wavy"@,
            descriptor.vendor@ == "Valentin Vignal"@,
            descriptor.features@ == seq![Feature::Instrument, Feature::Synthesizer, Feature::Stereo],
    {
        let mut features = Vec::new();
        features.push(Feature::Instrument);
        features.push(Feature::Synthesizer);
        features.push(Feature::Stereo);
        Descriptor {
            id: "com.valentinvignal.wavy",
            name: "Wavy",
            vendor: "Valentin Vignal",
            features,
        }
    }

    /// The shared state of a new plugin instance.
    pub fn new_shared() -> WavyShared {
        WavyShared {  }
    }

    /// The main-thread state of a new plugin instance.
    pub fn new_main_thread<'a>(shared: &'a WavyShared) -> (main_thread: WavyMainThread<'a>)
        ensures
            main_thread.shared() == shared,
    {
        WavyMainThread { shared }
    }
}

impl<'a> WavyMainThread<'a> {
    /// The shared state this main thread belongs to.
    pub closed spec fn shared(&self) -> &'a WavyShared {
        self.shared
    }

    /// How many audio ports there are in the given direction: one output, no
    /// input.
    pub fn audio_port_count(&self, is_input: bool) -> (count: u32)
        ensures
            count == (if is_input { 0u32 } else { 1u32 }),
    {
        if !is_input {
            1
        } else {
            0
        }
    }

    /// The audio output at index 0 is the main stereo port; there is no other
    /// audio port.
    pub fn audio_port(&self, index: u32, is_input: bool) -> (port: Option<AudioPortInfo>)
        ensures
            port is Some <==> !is_input && index == 0,
            port matches Some(info) ==> is_main_audio_output(info),
    {
        if !is_input && index == 0 {
            Some(
                AudioPortInfo {
                    id: MAIN_PORT_ID,
                    name: "main",
                    channel_count: MAIN_CHANNEL_COUNT,
                    is_main: true,
                    port_type: Some(PortType::Stereo),
                    in_place_pair: None,
                },
            )
        } else {
            None
        }
    }

    /// How many note ports there are in the given direction: one input, no
    /// output.
    pub fn note_port_count(&self, is_input: bool) -> (count: u32)
        ensures
            count == (if is_input { 1u32 } else { 0u32 }),
    {
        if is_input {
            1
        } else {
            0
        }
    }

    /// The note input at index 0 takes CLAP note events; there is no other
    /// note port.
    pub fn note_port(&self, index: u32, is_input: bool) -> (port: Option<NotePortInfo>)
        ensures
            port is Some <==> is_input && index == 0,
            port matches Some(info) ==> is_main_note_input(info),
    {
        if is_input && index == 0 {
            Some(
                NotePortInfo {
                    id: MAIN_PORT_ID,
                    name: "main",
                    supported_dialects: NoteDialects {
                        clap: true,
                        midi: false,
                        midi_mpe: false,
                        midi2: false,
                    },
                    preferred_dialect: Some(NoteDialect::Clap),
                },
            )
        } else {
            None
        }
    }
}

impl<'a> WavyAudioProcessor<'a> {
    /// The mathematical state of the processor's voice.
    pub closed spec fn voice(&self) -> Voice {
        self.osc.voice()
    }

    /// The shared state this processor belongs to.
    pub closed spec fn shared(&self) -> &'a WavyShared {
        self.shared
    }

    /// Starts audio processing at `sample_rate` samples per second, with a
    /// silent sine voice.
    pub fn activate(
        main_thread: &WavyMainThread<'a>,
        shared: &'a WavyShared,
        sample_rate: u32,
    ) -> (processor: Self)
        requires
            sample_rate > 0,
        ensures
            processor.voice() == Voice::silent(sample_rate as nat),
            processor.voice().wf(),
            processor.shared() == shared,
    {
        Self { osc: Box::new(SineOscillator::new(sample_rate)), shared }
    }

    /// Processes one block.
    ///
    /// `output` is what the host presents as its first output port, `left` and
    /// `right` take the block's samples, and `batches` are the block's note
    /// events, batched by sample offset. The output is checked first, then the
    /// batches; if either is wrong, the call reports it and touches neither the
    /// voice nor the buffers. Otherwise the block is rendered batch by batch,
    /// and the result says whether the voice still sounds.
    pub fn process(
        &mut self,
        output: Option<OutputPort>,
        left: &mut [Sample],
        right: &mut [Sample],
        batches: &[EventBatch],
    ) -> (result: Result<ProcessStatus, ProcessError>)
        requires
            old(left)@.len() == old(right)@.len(),
        ensures
            result == Self::outcome(
                old(self).voice(),
                output,
                views(batches@),
                old(left)@.len(),
            ),
            result is Ok ==> {
                &&& final(self).voice() == old(self).voice().after_batches(views(batches@))
                &&& final(left)@ == old(self).voice().render_batches(views(batches@))
                &&& final(right)@ == final(left)@
            },
            result is Err ==> {
                &&& final(self).voice() == old(self).voice()
                &&& final(left)@ == old(left)@
                &&& final(right)@ == old(right)@
            },
            old(self).voice().wf() ==> final(self).voice().wf(),
            final(self).shared() == old(self).shared(),
    {
        proof {
            if self.voice().wf() {
                self.voice().lemma_after_batches_wf(views(batches@));
            }
        }
        match check_output(output) {
            Err(error) => {
                return Err(error);
            },
            Ok(()) => {},
        }
        match run_block(&mut *self.osc, left, right, batches) {
            Err(error) => {
                return Err(error);
            },
            Ok(()) => {},
        }
        if self.osc.is_active() {
            Ok(ProcessStatus::Continue)
        } else {
            Ok(ProcessStatus::Sleep)
        }
    }

    /// How a processing call ends: with the first thing wrong with the output,
    /// else with a malformed schedule if the batches do not cut the block
    /// exactly, else with `Continue` while a note is held after the block and
    /// `Sleep` when none is.
    pub open spec fn outcome(
        voice: Voice,
        output: Option<OutputPort>,
        batches: Seq<BatchView>,
        block_len: nat,
    ) -> Result<ProcessStatus, ProcessError> {
        match output_error(output) {
            Some(error) => Err(error),
            None => if !is_partition(batches, block_len) {
                Err(ProcessError::MalformedSchedule)
            } else if voice.after_batches(batches).is_active() {
                Ok(ProcessStatus::Continue)
            } else {
                Ok(ProcessStatus::Sleep)
            },
        }
    }
}

} // verus!
