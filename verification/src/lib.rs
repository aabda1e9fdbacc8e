//! Converlex: the engine of a batch converter for media files.
//!
//! A batch is a list of jobs, each the conversion of one file by one run of
//! an encoder. The engine says where a job writes ([`output_path`]), what
//! the encoder is run with ([`command`]), what the encoder's diagnostics
//! tell about its progress ([`timecode`], [`progress`], [`supervisor`]),
//! which jobs may start ([`batch`]) and how the states of the jobs follow
//! from what the running jobs report ([`event`], [`store`], [`app_data`]).
//!
//! The engine starts no process and reads no file: whoever runs it hands it
//! what was read and carries out what it answers. Times are whole
//! microseconds, and progress is counted in parts per million.

pub mod app_data;
pub mod app_event;
pub mod batch;
pub mod command;
pub mod error;
pub mod event;
pub mod format_selector;
pub mod formats;
pub mod fraction;
pub mod output_path;
pub mod paths;
pub mod process_filter;
pub mod progress;
pub mod settings;
pub mod store;
pub mod supervisor;
pub mod task;
pub mod task_config;
pub mod task_item_row;
pub mod text;
pub mod timecode;
