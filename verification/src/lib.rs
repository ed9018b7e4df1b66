//! Decision logic of the Hermes desktop shell, with its contracts.

pub mod asset_server;
pub mod bootstrap;
pub mod capture;
pub mod commands;
pub mod connection_config;
pub mod connections;
pub mod connections_dial;
pub mod desk_laws;
pub mod desktop_misc;
pub mod dial_laws;
pub mod escape;
pub mod flow_laws;
pub mod gateway;
pub mod git;
pub mod git_flow;
pub mod git_laws;
pub mod git_review;
pub mod git_scan;
pub mod git_status;
pub mod git_worktree;
pub mod host_laws;
pub mod json;
pub mod load_laws;
pub mod order;
pub mod outside;
pub mod paths;
pub mod preview_watch;
pub mod registry;
pub mod registry_laws;
pub mod registry_load;
pub mod registry_migrate;
pub mod registry_reload;
pub mod registry_store;
pub mod review_laws;
pub mod screenshots;
pub mod shell_laws;
pub mod ssh_config;
pub mod terminal;
pub mod text;
pub mod text_laws;
pub mod tool_laws;
pub mod updates;
pub mod windows;
pub mod work_laws;
