use vstd::prelude::*;

pub mod backward;
pub mod buffer;
pub mod builder;
pub mod builder_laws;
pub mod context;
pub mod device_plan;
pub mod executor;
pub mod forward;
pub mod gpu;
pub mod graph;
pub mod graph_v2;
pub mod jobs;
pub mod kernels;
pub mod layer;
pub mod logger;
pub mod mixed_model;
pub mod model;
pub mod observer;
pub mod model_builder;
pub mod model_passes;
pub mod param_store;
pub mod plan_check;
pub mod segment_plan;
pub mod tensor_layout;
pub mod text;
pub mod threads;
pub mod unit_route;

verus! {

} // verus!
