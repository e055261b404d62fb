//! Kant: concept and information modelling after the FDA rules, with
//! end-to-end encrypted live collaboration through a blind relay.
//!
//! This crate holds the verified core: the domain model, the collaboration
//! wire protocol and its cryptographic envelope, the session tickets, the
//! relay's room registry and the pure parts of the editor state.

pub mod class_graph;
pub mod collab_session;
pub mod concept_editor;
pub mod concept_model;
pub mod concepts;
pub mod dialogs;
pub mod crypto;
pub mod edge_router;
pub mod editor;
pub mod encoding;
pub mod ids;
pub mod information_model;
pub mod model;
pub mod network;
pub mod project_files;
pub mod protocol;
pub mod relay;
pub mod routes;
pub mod search;
pub mod seqs;
pub mod text;
pub mod ticket;
pub mod workspace;
