use vstd::prelude::*;

pub mod agent;
pub mod agentsmd;
pub mod chroot;
pub mod cwd;
pub mod error;
pub mod fs;
pub mod hil;
pub mod history;
pub mod hooks;
pub mod ir;
pub mod json;
pub mod listing;
pub mod mcp;
pub mod messages;
pub mod openai;
pub mod paths;
pub mod retry;
pub mod run;
pub mod sandbox;
pub mod skills;
pub mod skillset;
pub mod stream;
pub mod text;
pub mod toolgen;
pub mod tools;
pub mod usage;
pub mod utils;

verus! {
} // verus!
