//! Choosing the backend: RPC is preferred over WebHDFS.
//!
//! With `auto`, an `hdfs://` NameNode URI is probed over RPC (within the
//! probe timeout); a reachable cluster keeps RPC, anything else falls back
//! to WebHDFS. Without an `hdfs://` URI, WebHDFS is used directly.
use vstd::prelude::*;
use crate::config::HdfsConfig;
use crate::text::{has_prefix, starts_with, str_eq};

verus! {

pub struct HdfsClientBuilder;

/// The backend that the configuration asks for.
#[derive(Debug, Clone, Copy, PartialEq, Eq, Structural)]
pub enum BackendChoice {
    Rpc,
    WebHdfs,
    Auto,
}

/// The backend a client is built for.
#[derive(Debug, Clone, Copy, PartialEq, Eq, Structural)]
pub enum Backend {
    Rpc,
    WebHdfs,
}

/// How the RPC probe (`stat /`) ended.
#[derive(Debug, Clone, Copy, PartialEq, Eq, Structural)]
pub enum ProbeOutcome {
    Succeeded,
    /// `/` was not found: the cluster answered, so it is reachable.
    NotFound,
    Failed,
    TimedOut,
}

impl HdfsClientBuilder {
    /// Timeout of the RPC probe in milliseconds, short so that start-up stays
    /// fast when RPC is unreachable.
    pub const PROBE_TIMEOUT_MS: u64 = 3000;

    /// `rpc` and `webhdfs` force a backend; anything else selects automatically.
    pub fn choose_backend(config: &HdfsConfig) -> (c: BackendChoice)
        ensures
            c == if config.preferred_backend@ == "rpc"@ {
                BackendChoice::Rpc
            } else if config.preferred_backend@ == "webhdfs"@ {
                BackendChoice::WebHdfs
            } else {
                BackendChoice::Auto
            },
    {
        if str_eq(config.preferred_backend.as_str(), "rpc") {
            BackendChoice::Rpc
        } else if str_eq(config.preferred_backend.as_str(), "webhdfs") {
            BackendChoice::WebHdfs
        } else {
            BackendChoice::Auto
        }
    }

    /// Automatic selection tries RPC only for an explicit `hdfs://` URI.
    pub fn auto_tries_rpc(config: &HdfsConfig) -> (r: bool)
        ensures
            r == has_prefix(config.namenode_uri@, "hdfs://"@),
    {
        starts_with(config.namenode_uri.as_str(), "hdfs://")
    }

    /// After the probe, RPC is kept when the cluster answered.
    pub fn keep_rpc(outcome: ProbeOutcome) -> (r: bool)
        ensures
            r == (outcome == ProbeOutcome::Succeeded || outcome == ProbeOutcome::NotFound),
    {
        match outcome {
            ProbeOutcome::Succeeded => true,
            ProbeOutcome::NotFound => true,
            _ => false,
        }
    }

    /// The backend that automatic selection settles on: RPC only for an
    /// `hdfs://` URI whose RPC client could be made (`probe` is `Some`) and
    /// whose cluster answered the probe; WebHDFS otherwise.
    pub fn auto_backend(config: &HdfsConfig, probe: Option<ProbeOutcome>) -> (b: Backend)
        ensures
            b == if has_prefix(config.namenode_uri@, "hdfs://"@) && (probe == Some(ProbeOutcome::Succeeded)
                || probe == Some(ProbeOutcome::NotFound)) {
                Backend::Rpc
            } else {
                Backend::WebHdfs
            },
    {
        if Self::auto_tries_rpc(config) {
            match probe {
                Some(outcome) => if Self::keep_rpc(outcome) {
                    return Backend::Rpc;
                },
                None => {},
            }
        }
        Backend::WebHdfs
    }
}

} // verus!
