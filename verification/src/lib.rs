//! Streaming audio resampling: the integer core of the resampler.
//!
//! This crate holds the parts of the resampler that work on integers:
//! configuration checks, backend selection, the per-channel ring-buffer
//! history, the Q15 fixed-point arithmetic of the `i16` path, the exact-ratio
//! half-band and third-band renderers of that path and the stream that drives them, the
//! frame accounting that sizes output buffers, error messages, and the
//! parsing of quality and backend names and of the command line.

pub mod backend;
pub mod cli;
pub mod config;
pub mod error;
pub mod fixed;
pub mod history;
pub mod parse;
pub mod plan;
pub mod render;
pub mod ring;
pub mod stream;
pub mod text;
pub mod taps;

pub use backend::{
    auto_select, Backend, CpuFeatures, FirBackend, SelectedBackend, SelectedFirBackend,
};
pub use cli::{parse_cli_args, parse_u32, wav_sample_type, CliArgs, CliRequest, WavSampleType};
pub use config::{Quality, ResamplerConfig};
pub use error::{frame_alignment_error, Error};
pub use fixed::{dot_i16_acc, dot_i16_q15, q15_acc_to_i16};
pub use history::{
    append_input, discard_before, ensure_history_capacity, gather_window, sample_at,
};
pub use parse::{
    backend_from_name, parse_backend, parse_quality, quality_from_name, str_eq_ignore_ascii_case,
    str_equals,
};
pub use plan::{
    check_output_slice, expected_output_frames, filter_taps, init_stream, required_output_capacity, special_ratio,
    ProcessStats, SpecialRatio, StreamSetup,
};
pub use render::{
    render_decimated_frame_q15, render_down2_frame_q15, render_exact_ratio_available, render_fir_frame_q15,
    render_up2_frame_q15, HalfBandTaps,
};
pub use ring::{next_power_of_two, RingBuffer};
pub use stream::HalfBandStream;
pub use taps::{half_band_offsets, sparse_offsets, third_band_offsets};
