//! Generation of the trace from what was recorded during execution, in fragments.

pub mod batch_laws;
pub mod chiplet_laws;
pub mod chiplets;
pub mod circuit;
pub mod clk_laws;
pub mod combine;
pub mod context_laws;
pub mod cut_laws;
pub mod decoder_laws;
pub mod execution;
pub mod executor;
pub mod fragment;
pub mod generator;
pub mod main_trace;
pub mod model;
pub mod node_laws;
pub mod op_laws;
pub mod prefix_laws;
pub mod progress;
pub mod replay_laws;
pub mod resume;
pub mod resume_laws;
pub mod row_laws;
pub mod shape_laws;
pub mod size_laws;
pub mod span_laws;
pub mod stitch;
pub mod sync_ops;
pub mod trace_builder;
pub mod trace_laws;
pub mod whole_laws;
