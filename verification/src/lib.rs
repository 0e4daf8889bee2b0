//! Core of a multi-connection, resumable file downloader.
//!
//! The crate holds the decisions of the download engine: how a byte range is
//! partitioned across workers, how the coordinator reacts to worker messages,
//! how live ranges are split when a worker runs dry, how a single worker
//! retries and stops, and what the session file holds. Beside the engine
//! stand the rules of its front ends: the native host manifest, the answers
//! of the native messaging host, the links that hand a download over, and
//! the list of downloads that is kept between runs.
//!
//! Every function carries a contract. Verus proves all of them but the few
//! that call `serde_json`, `urlencoding` and `std::path`; those are marked
//! `external_body` and say in their comments what is taken on trust.
//! Network and file access are left to the embedding program, which feeds
//! the state machines defined here with plain values.

pub mod coordinator;
pub mod decimal;
pub mod deep_link;
pub mod history;
pub mod json;
pub mod native_host_manifest;
pub mod native_messaging;
pub mod observer;
pub mod partition;
pub mod probe;
pub mod session;
pub mod store;
pub mod text;
pub mod worker;

pub use coordinator::Coordinator;
pub use observer::DownloadObserver;
pub use session::DownloadSession;
pub use worker::Worker;
