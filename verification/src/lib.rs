//! A retrieval-augmented knowledge pipeline: documents are ingested
//! incrementally with content-hash change detection, split into bounded
//! chunks, embedded and persisted atomically, and queried by ranking
//! stored chunks against a query embedding.
//!
//! Around that core stand the text engines of the companion tools that
//! share its provider interface: transcript distillation, sentiment
//! analysis, scene detection and storyboard assembly, and architectural
//! diagram requests.
//!
//! All decision logic lives here and is verified; network and file I/O
//! around it is left to a thin unverified shell.

pub mod architect;
pub mod chunking;
pub mod codec;
pub mod config;
pub mod distiller;
pub mod error;
pub mod hashing;
pub mod indexing;
pub mod ingestion;
pub mod jsonx;
pub mod provider;
pub mod query;
pub mod risk;
pub mod scenes;
pub mod sentiment;
pub mod store;
pub mod storyboard;
pub mod textutil;
