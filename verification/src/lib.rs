pub mod calibration;
pub mod chart_config;
pub mod controller;
pub mod csv;
pub mod dataset;
pub mod defaults;
pub mod detector;
pub mod extract;
pub mod extract_laws;
pub mod pattern;
pub mod queue;
pub mod score;
pub mod stats;
pub mod status;
pub mod store;
pub mod text;
pub mod tsv;
