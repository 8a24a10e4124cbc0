//! Verified core logic of the Light Architects web shell.
pub mod text;
pub mod git;
pub mod git_laws;
pub mod fork;
pub mod mosaic;
pub mod northstar;
pub mod observability;
pub mod wave;
pub mod clock;
pub mod squad;
pub mod program;
pub mod sequencer;
pub mod config;
pub mod pty;
pub mod setup;
pub mod exec;
pub mod cockpit;
pub mod paths;
pub mod question;
pub mod fleet;
pub mod shared_map;
pub mod sse_rate_limit;
pub mod hitl;
pub mod attestation;
pub mod container;
pub mod litellm;
pub mod offsets;
pub mod think;
pub mod think_stream;
pub mod session;
pub mod code;
pub mod git_ops;
pub mod server;
pub mod session_cwd;
pub mod program_run;
pub mod loops_demo;
