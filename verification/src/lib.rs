//! Core logic of a game-server manager: mod dependency planning, boot-failure
//! attribution and repair, crash attribution, profiles, boot validation and
//! install transactions.

pub mod acceptance;
pub mod app_state;
pub mod atomic_persistence;
pub mod automodpack;
pub mod backup;
pub mod boot_failure_analyzer;
pub mod boot_repair;
pub mod boot_validator;
pub mod clock;
pub mod config;
pub mod crash_attribution;
pub mod crash_evidence;
pub mod crash_laws;
pub mod debug_report;
pub mod dependency_graph;
pub mod dependency_resolver;
pub mod downloads;
pub mod errors;
pub mod file_cache;
pub mod forge;
pub mod heartbeat;
pub mod helpers;
pub mod identifiers;
pub mod install_transaction;
pub mod jar_index;
pub mod jar_metadata;
pub mod mod_compat;
pub mod mod_reader;
pub mod mod_services;
pub mod node_api;
pub mod server_properties;
pub mod sorting;
pub mod structured;
pub mod text;
pub mod text_laws;
pub mod version_range;
