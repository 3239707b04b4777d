//! Keyword spotting: feature window, logit smoothing, detection, self-tests.

pub mod argmax;
pub mod boot;
pub mod detector;
pub mod engine;
pub mod frame;
pub mod history;
pub mod report;
pub mod selftest;
pub mod spotter;
pub mod timeline;
pub mod watchdog;
pub mod window;
