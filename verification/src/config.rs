use vstd::prelude::*;

use crate::backend::Backend;
use crate::error::Error;

verus! {

/// Filter quality: a trade of CPU cost against stop-band rejection.
#[derive(Debug, Clone, Copy, PartialEq, Eq)]
pub enum Quality {
    Fast,
    Balanced,
    Best,
}

impl Quality {
    /// Tap count of the polyphase FIR filter for this quality.
    pub open spec fn spec_taps(self) -> nat {
        match self {
            Quality::Fast => 24,
            Quality::Balanced => 48,
            Quality::Best => 96,
        }
    }

    /// Number of fractional phases in the polyphase coefficient table.
    pub open spec fn spec_phases(self) -> nat {
        match self {
            Quality::Fast => 256,
            Quality::Balanced => 512,
            Quality::Best => 1024,
        }
    }

    pub fn taps(self) -> (n: usize)
        ensures
            n == self.spec_taps(),
    {
        match self {
            Quality::Fast => 24,
            Quality::Balanced => 48,
            Quality::Best => 96,
        }
    }

    pub fn phases(self) -> (n: usize)
        ensures
            n == self.spec_phases(),
    {
        match self {
            Quality::Fast => 256,
            Quality::Balanced => 512,
            Quality::Best => 1024,
        }
    }
}

impl Default for Quality {
    fn default() -> (q: Self)
        ensures
            q == Quality::Balanced,
    {
        Quality::Balanced
    }
}

/// Everything a resampler needs to know about the stream it converts.
#[derive(Debug, Clone, Copy, PartialEq, Eq)]
pub struct ResamplerConfig {
    pub input_rate: u32,
    pub output_rate: u32,
    pub channels: usize,
    pub quality: Quality,
    pub backend: Backend,
    pub max_input_frames_per_chunk: Option<usize>,
}

impl ResamplerConfig {
    /// A configuration with the default quality, automatic backend selection
    /// and no chunk-size hint.
    pub fn new(input_rate: u32, output_rate: u32, channels: usize) -> (c: Self)
        ensures
            c.input_rate == input_rate,
            c.output_rate == output_rate,
            c.channels == channels,
            c.quality == Quality::Balanced,
            c.backend == Backend::Auto,
            c.max_input_frames_per_chunk == None::<usize>,
    {
        ResamplerConfig {
            input_rate,
            output_rate,
            channels,
            quality: Quality::default(),
            backend: Backend::Auto,
            max_input_frames_per_chunk: None,
        }
    }

    /// The error that `validate` reports for this configuration, if any.
    pub open spec fn spec_validation_error(self) -> Option<Error> {
        if self.input_rate == 0 || self.output_rate == 0 {
            Some(Error::InvalidSampleRate)
        } else if self.channels == 0 {
            Some(Error::InvalidChannels)
        } else {
            None
        }
    }

    /// Rejects zero sample rates first, then a zero channel count.
    pub fn validate(self) -> (r: Result<(), Error>)
        ensures
            match self.spec_validation_error() {
                Some(e) => r == Err::<(), Error>(e),
                None => r is Ok,
            },
    {
        if self.input_rate == 0 || self.output_rate == 0 {
            return Err(Error::InvalidSampleRate);
        }
        if self.channels == 0 {
            return Err(Error::InvalidChannels);
        }
        Ok(())
    }
}

} // verus!
