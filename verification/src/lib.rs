//! Wavey: the editing core of a hand-drawn waveform tool.
//!
//! A waveform is an ordered run of amplitude samples. The host user
//! interface reports pointer and widget input once per update cycle; this
//! library owns the samples and decides how each input changes them, what
//! part of data space the plot shows, and what text an export writes.
//! Drawing the plot and writing the file stay with the host.
//!
//! Amplitudes and pointer positions are fixed-point integers, see
//! [`amplitude`]. Every edit is specified on sequences of amplitudes in
//! [`waveform`] and carried out by [`editor::Editor`].

pub mod amplitude;
pub mod decimal;
pub mod mode;
pub mod waveform;
pub mod editor;

pub use amplitude::UNIT;
pub use editor::{
    Editor, ExportRequest, ExportStatus, FrameInput, FrameOutput, Pointer, Viewport,
    DEFAULT_PATH, DEFAULT_SAMPLES,
};
pub use mode::{Mode, Polarity, HEADROOM};
pub use waveform::MIN_SAMPLES;
