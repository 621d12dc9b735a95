//! The rules of a fleet control plane for development machines: which accounts
//! may work for it, where a worker keeps its files and who may touch them, how
//! authority is asked for and given back, what a machine already has, and how a
//! controller and a worker talk.
//!
//! The library decides; it touches nothing. What the operating system was asked
//! and answered comes in as plain values, and where one answer decides what is
//! asked next, the library says what to ask.

// Failures, texts and numbers.
pub mod digest;
pub mod error;
pub mod number;
pub mod scan;
pub mod text;
pub mod text_laws;

// Accounts and the tokens they act with.
pub mod account_laws;
pub mod caller_laws;
pub mod dedicated;
pub mod native;
pub mod principal;
pub mod unix_context;
pub mod windows_account;
pub mod windows_token;

// Access rules.
pub mod access_laws;
pub mod acl;
pub mod descriptor;

// Asking for authority, and giving it back.
pub mod authority_laws;
pub mod authorization;
pub mod command_line;
pub mod privilege;

// A worker's directories: where they are, how they are made one after another,
// and what is known of them afterwards.
pub mod evidence;
pub mod inspection_laws;
pub mod layout;
pub mod layout_laws;
pub mod layout_mutation;
pub mod node_laws;
pub mod node_mutation;
pub mod outcome_laws;
pub mod path_laws;
pub mod procedure_laws;
pub mod root_laws;
pub mod volume_laws;
pub mod walk_laws;
pub mod windows_path;
pub mod worker_create;
pub mod worker_lock;
pub mod worker_ops;
pub mod worker_outcome;
pub mod worker_root;

// Manifests and private files.
pub mod publication;
pub mod store;
pub mod store_laws;

// What a machine already has.
pub mod authorized_keys;
pub mod baseline;
pub mod key_laws;
pub mod probe_laws;
pub mod probe_text;
pub mod ssh_key;
pub mod sshd_config;

// The protocol between a controller and a worker.
pub mod frame;
pub mod frame_laws;
pub mod json;
pub mod machine_id;
pub mod resources;
pub mod rpc;
pub mod rpc_client;
pub mod rpc_laws;
pub mod rpc_payload;
pub mod rpc_server;
pub mod secret;
pub mod session_laws;
pub mod status_laws;
pub mod wire_laws;
