//! What one processing call is handed for its output, and how the call ends.

use vstd::prelude::*;

verus! {

/// The sample buffers that the host provides for a port.
#[derive(Clone, Copy, Debug, PartialEq, Eq, Structural)]
pub enum SampleFormat {
    /// Single-precision buffers only.
    Single,
    /// Double-precision buffers only.
    Double,
    /// Buffers of both precisions.
    Both,
}

/// The shape of an output port, as the host presents it for one block.
#[derive(Clone, Copy, Debug, PartialEq, Eq, Structural)]
pub struct OutputPort {
    pub format: SampleFormat,
    pub channel_count: u32,
}

/// Something the voice writes to, and that can be absent.
#[derive(Clone, Copy, Debug, PartialEq, Eq, Structural)]
pub enum Resource {
    /// The first output port.
    OutputPort,
    /// The first channel of the output port.
    LeftChannel,
    /// The second channel of the output port.
    RightChannel,
}

/// Why a processing call could not render its block.
#[derive(Clone, Copy, Debug, PartialEq, Eq, Structural)]
pub enum ProcessError {
    /// The output port, or one of its two channels, is not there.
    MissingResource(Resource),
    /// The output port carries no single-precision buffers.
    FormatMismatch,
    /// The event batches do not cut the block exactly.
    MalformedSchedule,
}

/// What a processing call asks the host to do next.
#[derive(Clone, Copy, Debug, PartialEq, Eq, Structural)]
pub enum ProcessStatus {
    /// A note is held: keep calling.
    Continue,
    /// The voice is silent: no call is needed before the next note-on.
    Sleep,
}

/// The first thing that is wrong with the output, if anything is: the port is
/// absent, or it has no single-precision buffers, or it lacks the left or the
/// right channel.
pub open spec fn output_error(output: Option<OutputPort>) -> Option<ProcessError> {
    match output {
        None => Some(ProcessError::MissingResource(Resource::OutputPort)),
        Some(port) => {
            if port.format is Double {
                Some(ProcessError::FormatMismatch)
            } else if port.channel_count == 0 {
                Some(ProcessError::MissingResource(Resource::LeftChannel))
            } else if port.channel_count == 1 {
                Some(ProcessError::MissingResource(Resource::RightChannel))
            } else {
                None
            }
        },
    }
}

/// Checks that the output is a port with single-precision buffers for a left
/// and a right channel.
pub fn check_output(output: Option<OutputPort>) -> (result: Result<(), ProcessError>)
    ensures
        result == match output_error(output) {
            None => Ok::<(), ProcessError>(()),
            Some(error) => Err(error),
        },
{
    match output {
        None => Err(ProcessError::MissingResource(Resource::OutputPort)),
        Some(port) => {
            match port.format {
                SampleFormat::Double => Err(ProcessError::FormatMismatch),
                _ => {
                    if port.channel_count == 0 {
                        Err(ProcessError::MissingResource(Resource::LeftChannel))
                    } else if port.channel_count == 1 {
                        Err(ProcessError::MissingResource(Resource::RightChannel))
                    } else {
                        Ok(())
                    }
                },
            }
        },
    }
}

} // verus!
