pub mod ace;
pub mod ace_laws;
pub mod answer_laws;
pub mod block_stack;
pub mod context;
pub mod continuation;
pub mod errors;
pub mod execution_tracer;
pub mod fast_processor;
pub mod felt;
pub mod helper_laws;
pub mod helpers;
pub mod interfaces;
pub mod layout;
pub mod lockstep;
pub mod mast;
pub mod mast_laws;
pub mod overflow;
pub mod parallel;
pub mod pow2;
pub mod processor;
pub mod quad_felt;
pub mod quad_laws;
pub mod recording_laws;
pub mod stack_laws;
pub mod trace_state;
pub mod tracer;
pub mod tracer_laws;
pub mod u32_laws;
pub mod u32_ops;
pub mod utils;
pub mod word;
