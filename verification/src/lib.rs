//! The decision core of a tool-running agent driver.

pub mod actions;
pub mod agent;
pub mod breadcrumbs;
pub mod clock;
pub mod config;
pub mod driver_tools;
pub mod events;
pub mod files;
pub mod http;
pub mod json;
pub mod loafs;
pub mod mcp;
pub mod openai;
pub mod order;
pub mod paths;
pub mod policy;
pub mod registry;
pub mod report;
pub mod reranker;
pub mod rpc;
pub mod run;
pub mod serve;
pub mod sessions;
pub mod shell;
pub mod text;
pub mod tokens;
pub mod tool_defs;
pub mod tools;
pub mod unicode;
