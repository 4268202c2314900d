//! Audio buffers and encoders.

pub mod flac;
pub mod pcm;
pub mod wav;
