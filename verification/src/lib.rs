//! A verified core for a remote file-access daemon.
//!
//! Clients address files through virtual paths of the form
//! `directory/relative-path`, where each directory root is named,
//! independently permissioned, and backed by a filesystem subtree.
//! This crate holds the authorization and path-resolution engine, the
//! storage adapter, the chunked transfer protocol, and the privilege-drop
//! sequencer, each with contracts checked by Verus.

pub mod auth;
pub mod client_config;
pub mod error;
pub mod file_handler;
pub mod messages;
pub mod net;
pub mod privilege;
pub mod server_config;
pub mod service;
pub mod sys;
pub mod text;
pub mod transfer;
