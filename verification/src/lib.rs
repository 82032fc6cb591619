//! Verified core of a convolution reverb plug-in: decoding of impulse-response
//! WAV data, the bookkeeping of the loaded impulse response and its processing
//! settings, and the small pieces of decision logic that the audio thread and
//! the web-view editor share.
pub mod wav;
pub mod ipc;
pub mod processing;
pub mod tasks;
pub mod dsp;
pub mod editor;
pub mod webview;
pub mod callbacks;
