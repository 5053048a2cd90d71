//! Conversion of video frames between packed four-channel pixels and planar
//! YUV 4:2:0, with the small pieces of stage state that travel with the
//! converters through a frame pipeline.
//!
//! The colour transform is stated in [`pixel`] over the double-precision
//! arithmetic of [`doubles`]; frame sizes and the two ways of pairing pixels
//! with chroma samples are in [`geometry`]. The converters themselves are
//! [`rgba_to_yuv`] and [`yuv_to_rgba`], and [`round_trip`] says what is left of
//! chroma planes after they went through both.
//!
//! Every executable function of this crate is verified against the contract
//! written in its header.

pub mod buffer_leak_alert;
pub mod buffers;
pub mod doubles;
pub mod frame_data;
pub mod geometry;
pub mod layout;
pub mod panicker;
pub mod pixel;
pub mod registry;
pub mod rgba_to_yuv;
pub mod round_trip;
pub mod transfer;
pub mod utils;
pub mod y4m_loader;
pub mod yuv_to_rgba;
