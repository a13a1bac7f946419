//! q-body: the decision logic of a self-evolving A2A agent, with contracts.

pub mod a2a;
pub mod active_memory;
pub mod backlog;
pub mod clamp;
pub mod clock;
pub mod config;
pub mod cycles;
pub mod eval;
pub mod evolution_gate;
pub mod handler;
pub mod health;
pub mod journal;
pub mod json;
pub mod learnings;
pub mod mcp_registry;
pub mod memory;
pub mod local_search;
pub mod protocol;
pub mod queue;
pub mod reflect;
pub mod registry;
pub mod retry;
pub mod risk;
pub mod router;
pub mod sandbox;
pub mod server;
pub mod skill_evolve;
pub mod skills;
pub mod state;
pub mod strmap;
pub mod text;
pub mod trust;
pub mod trust_input;
pub mod validator;
