//! The bridge: codec selection, pipelines and frames for a renderer.

pub mod labels;
pub mod frame;
pub mod dts_objects;
pub mod dts_frame;
pub mod auro_stage;
pub mod codec;
pub mod dts_demux;
pub mod bridge;
pub mod bridge_laws;
pub mod place_laws;
pub mod presentation;
pub mod stage_laws;
pub mod dts_laws;
pub mod dts_pipeline;
pub mod fold_config;
pub mod logging;
