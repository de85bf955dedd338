//! A verified core for mirroring a version-control object graph into a
//! relational store.
//!
//! The crate holds the rules of the mirror over plain values: the canonical
//! object encoding and its digest, the store session with its staging
//! protocol, the synchronization engine with its transfer strategies, the
//! reconciliation of references, and the read-side request handlers.
//!
//! The store session keeps the store's tables in memory. Its contracts say
//! what each operation does to the durable objects, the references and the
//! staging set, and the engine and the server are proved against them. A
//! driver that talks to a relational engine carries the same operations out
//! by statements and takes its plans and checks from here: the batches and
//! units of a transfer, the verified encoding of each object, the upserts
//! of a reconciliation, the route and the answer of each request.

pub mod error;
pub mod config;
pub mod object;
pub mod table;
pub mod local;
pub mod partition;
pub mod client;
pub mod transfer;
pub mod export;
pub mod refs;
pub mod updater;
pub mod progress;
pub mod schema;
pub mod route;
pub mod server;
pub mod laws;
