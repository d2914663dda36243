//! Meeting detection and recording lifecycle logic for a desktop meeting recorder.

pub mod audio;
pub mod config;
pub mod events;
pub mod meeting;
pub mod paths;
pub mod recording;
pub mod services;
pub mod text;
