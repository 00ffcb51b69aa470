//! Batch image optimisation engine: resize planning, per-file optimisation
//! steps, batch accounting and self-update decisions, all verified.
pub mod batch;
pub mod byte_formatter;
pub mod cli;
pub mod encoder_settings;
pub mod file_job;
pub mod file_names;
pub mod job_laws;
pub mod output_path;
pub mod size_calculator;
pub mod text;
pub mod updater;
pub mod version_comparator;
