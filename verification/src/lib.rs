//! Verified core of a URL-rendering service: request fingerprints and cache
//! keys, a presigned-URL codec, rate-limit configuration, the worker-pool and
//! task-queue state machines, and the request-handler decisions.
pub mod access_control;
pub mod config;
pub mod error;
pub mod handler;
pub mod hash;
pub mod pdf;
pub mod pool;
pub mod pstree;
pub mod qs;
pub mod rate_limiting;
pub mod request;
pub mod screenshot;
pub mod signature_v4;
pub mod storage;
pub mod text;
