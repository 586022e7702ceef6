//! Management of many git repositories: fetch scheduling, branch
//! reconciliation and the live terminal dashboard.
pub mod app;
pub mod cfg;
pub mod cmd;
pub mod config;
pub mod ext;
pub mod invocation;
pub mod order;
pub mod path;
pub mod term;
pub mod text;
pub mod ui;
pub mod wt;
