//! Verified core of a microphone and keyword-spotting project.

pub mod capture;
pub mod elf;
pub mod kws;
pub mod mic;
pub mod mmio;
pub mod model;
pub mod pcm;
pub mod pdm;
pub mod platform;
pub mod quant;
pub mod recent;
pub mod text;
