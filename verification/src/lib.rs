//! Decision logic of the code-navigation tools: path filters, uptime text,
//! LSP health classification, call-hierarchy traversal and result rendering.

pub mod text;
pub mod uptime;
pub mod paths;
pub mod health;
pub mod bfs;
pub mod reason;
pub mod impact;
pub mod definition;
pub mod deep_context;
pub mod imports;
pub mod fallback;
pub mod probe;
pub mod analyze;
