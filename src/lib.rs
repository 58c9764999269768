//! Core logic of an HTTP gateway over an S3-compatible object store: bucket
//! name rules, error classification, folder-style listings, batched folder
//! deletion and the request sequences of the gateway operations.
//!
//! The store itself is reached by the caller. Each operation that needs more
//! than one store call is a small state machine: it hands out the next
//! [`protocol::Call`] to make and is resumed with the store's
//! [`protocol::Reply`], until it finishes with a result.

pub mod text;
pub mod bucket_name;
pub mod error;
pub mod protocol;
pub mod listing;
pub mod delete;
pub mod service;
pub mod store;
pub mod naming;
pub mod requests;
