//! Lossless rewriting of HDR static metadata (mastering display colour volume
//! and content light level) carried in HEVC SEI prefix NAL units.

pub mod bitfield;
pub mod cll_metadata;
pub mod edit_config;
pub mod emulation;
pub mod error;
pub mod mdcv_metadata;
pub mod sei;
pub mod utils;
