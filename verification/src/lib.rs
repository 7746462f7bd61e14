//! Decision and text-processing logic of the NexBox desktop toolbox, verified with Verus.

pub mod settings;
pub mod text;
pub mod json;
pub mod sorting;
pub mod hotkey;
pub mod media_keys;
pub mod network;
pub mod nvidia_recording;
pub mod music_api;
pub mod optimization;
pub mod hardware_report;
pub mod boot;
pub mod memory_clean;
