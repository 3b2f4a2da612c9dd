use vstd::prelude::*;

use crate::text::{push_decimal, spec_decimal};

verus! {

/// Error returned by resampler construction and processing operations.
#[derive(Debug, Clone, PartialEq, Eq)]
pub enum Error {
    /// Input or output sample rate was zero.
    InvalidSampleRate,
    /// Channel count was zero.
    InvalidChannels,
    /// Input sample count was not divisible by the configured channel count.
    InputNotFrameAligned { samples: usize, channels: usize },
    /// Fixed output slice did not have enough sample capacity.
    OutputTooSmall { required: usize, available: usize },
    /// Requested backend is unavailable on the current CPU or build target.
    UnsupportedBackend(&'static str),
    /// Command-line interface error.
    Cli(String),
}

impl Error {
    /// The text that describes the error to a person.
    pub open spec fn spec_message(&self) -> Seq<char> {
        match self {
            Error::InvalidSampleRate => "sample rates must be greater than zero"@,
            Error::InvalidChannels => "channel count must be greater than zero"@,
            Error::InputNotFrameAligned { samples, channels } => "input has "@ + spec_decimal(
                *samples as nat,
            ) + " samples, which is not divisible by "@ + spec_decimal(*channels as nat)
                + " channels"@,
            Error::OutputTooSmall { required, available } => "output buffer has "@
                + spec_decimal(*available as nat) + " samples, but "@ + spec_decimal(
                *required as nat,
            ) + " samples are required"@,
            Error::UnsupportedBackend(backend) => "requested backend is not available: "@
                + backend@,
            Error::Cli(message) => message@,
        }
    }

    /// The text that describes the error to a person.
    pub fn message(&self) -> (m: String)
        ensures
            m@ == self.spec_message(),
    {
        match self {
            Error::InvalidSampleRate => String::from_str("sample rates must be greater than zero"),
            Error::InvalidChannels => String::from_str("channel count must be greater than zero"),
            Error::InputNotFrameAligned { samples, channels } => {
                let mut m = String::from_str("input has ");
                push_decimal(&mut m, *samples as u64);
                m.append(" samples, which is not divisible by ");
                push_decimal(&mut m, *channels as u64);
                m.append(" channels");
                m
            },
            Error::OutputTooSmall { required, available } => {
                let mut m = String::from_str("output buffer has ");
                push_decimal(&mut m, *available as u64);
                m.append(" samples, but ");
                push_decimal(&mut m, *required as u64);
                m.append(" samples are required");
                m
            },
            Error::UnsupportedBackend(backend) => {
                let mut m = String::from_str("requested backend is not available: ");
                m.append(backend);
                m
            },
            Error::Cli(message) => message.clone(),
        }
    }
}

/// The error for an input of `samples` interleaved samples that does not hold
/// a whole number of `channels`-sample frames.
pub fn frame_alignment_error(samples: usize, channels: usize) -> (e: Error)
    ensures
        e == (Error::InputNotFrameAligned { samples, channels }),
{
    Error::InputNotFrameAligned { samples, channels }
}

} // verus!
