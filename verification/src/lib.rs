use vstd::prelude::*;

pub mod text;
pub mod cap_types;
pub mod table;
pub mod cap_profile;
pub mod cap_resolver;
pub mod cap_core;
pub mod planning;
pub mod context;
pub mod delegation;
pub mod llm_prompts;
pub mod reflection;
pub mod cap_schema;
pub mod manifest;
pub mod runtime;
pub mod invoker;
pub mod cli;
pub mod pack;
pub mod bridge;
pub mod supplier;
pub mod wizard;
pub mod design_flow;
pub mod composition;
pub mod messages;

verus! {

} // verus!
