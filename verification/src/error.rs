//! `HfsError`, the error of every HDFS operation, and the mapping of errors
//! reported by the native RPC backend onto it.
use vstd::prelude::*;
use crate::text::{concat2, concat3, contains, contains_seq, copy_str};

verus! {

/// `std::io::Error`, carried by `HfsError::Io`; opaque here.
#[verifier::external_type_specification]
#[verifier::external_body]
pub struct ExIoError(std::io::Error);

/// `anyhow::Error`, carried by `HfsError::Other`; opaque here.
#[verifier::external_type_specification]
#[verifier::external_body]
pub struct ExAnyhowError(anyhow::Error);

/// The error of every HDFS operation.
#[derive(Debug)]
pub enum HfsError {
    Connection(String),
    Auth(String),
    NotFound(String),
    Permission(String),
    Hdfs(String),
    Config(String),
    NameNodeUnavailable(String),
    NotSupported(String),
    Io(std::io::Error),
    Other(anyhow::Error),
}

/// An `HfsError` with its message taken as a character sequence.
pub enum HfsErrorView {
    Connection(Seq<char>),
    Auth(Seq<char>),
    NotFound(Seq<char>),
    Permission(Seq<char>),
    Hdfs(Seq<char>),
    Config(Seq<char>),
    NameNodeUnavailable(Seq<char>),
    NotSupported(Seq<char>),
    Io,
    Other,
}

impl View for HfsError {
    type V = HfsErrorView;

    open spec fn view(&self) -> HfsErrorView {
        match self {
            HfsError::Connection(m) => HfsErrorView::Connection(m@),
            HfsError::Auth(m) => HfsErrorView::Auth(m@),
            HfsError::NotFound(m) => HfsErrorView::NotFound(m@),
            HfsError::Permission(m) => HfsErrorView::Permission(m@),
            HfsError::Hdfs(m) => HfsErrorView::Hdfs(m@),
            HfsError::Config(m) => HfsErrorView::Config(m@),
            HfsError::NameNodeUnavailable(m) => HfsErrorView::NameNodeUnavailable(m@),
            HfsError::NotSupported(m) => HfsErrorView::NotSupported(m@),
            HfsError::Io(_) => HfsErrorView::Io,
            HfsError::Other(_) => HfsErrorView::Other,
        }
    }
}

/// The errors of the native RPC client, as far as the mapping tells them apart.
/// `Other` carries the display text of any other error.
pub enum NativeError {
    FileNotFound(String),
    AlreadyExists(String),
    SaslError(String),
    NoSaslMechanism,
    RpcError(String, String),
    FatalRpcError(String, String),
    Other(String),
}

pub open spec fn msg_or_default_spec(msg: Seq<char>, default: Seq<char>) -> Seq<char> {
    if msg.len() == 0 {
        default
    } else {
        msg
    }
}

/// The error that an RPC error of class `cls` with message `msg` on `path` becomes.
pub open spec fn rpc_error_spec(cls: Seq<char>, msg: Seq<char>, path: Seq<char>) -> HfsErrorView {
    if contains_seq(cls, "AccessControlException"@) {
        HfsErrorView::Permission(path)
    } else if contains_seq(cls, "StandbyException"@) || contains_seq(cls, "RetriableException"@) {
        HfsErrorView::NameNodeUnavailable(msg)
    } else {
        HfsErrorView::Hdfs(cls + ": "@ + msg)
    }
}

/// The error that a native error on `path` becomes.
pub open spec fn native_error_spec(e: NativeError, path: Seq<char>) -> HfsErrorView {
    match e {
        NativeError::FileNotFound(_) => HfsErrorView::NotFound(path),
        NativeError::AlreadyExists(_) => HfsErrorView::Hdfs("already exists: "@ + path),
        NativeError::SaslError(m) => HfsErrorView::Auth(
            msg_or_default_spec(m@, "SASL authentication failed"@),
        ),
        NativeError::NoSaslMechanism => HfsErrorView::Auth("no valid SASL mechanism"@),
        NativeError::RpcError(c, m) => rpc_error_spec(c@, m@, path),
        NativeError::FatalRpcError(c, m) => rpc_error_spec(c@, m@, path),
        NativeError::Other(t) => HfsErrorView::Connection(t@),
    }
}

/// `msg`, or `default` when `msg` is empty.
pub fn msg_or_default(msg: String, default: &str) -> (r: String)
    ensures
        r@ == msg_or_default_spec(msg@, default@),
{
    if msg.as_str().is_empty() {
        copy_str(default)
    } else {
        msg
    }
}

fn map_rpc_error(cls: String, msg: String, path: &str) -> (r: HfsError)
    ensures
        r@ == rpc_error_spec(cls@, msg@, path@),
{
    if contains(cls.as_str(), "AccessControlException") {
        HfsError::Permission(copy_str(path))
    } else if contains(cls.as_str(), "StandbyException") || contains(
        cls.as_str(),
        "RetriableException",
    ) {
        HfsError::NameNodeUnavailable(msg)
    } else {
        HfsError::Hdfs(concat3(cls.as_str(), ": ", msg.as_str()))
    }
}

/// Map an error of the native RPC client on `path` to an `HfsError`.
pub fn map_native_error(e: NativeError, path: &str) -> (r: HfsError)
    ensures
        r@ == native_error_spec(e, path@),
{
    match e {
        NativeError::FileNotFound(_) => HfsError::NotFound(copy_str(path)),
        NativeError::AlreadyExists(_) => HfsError::Hdfs(concat2("already exists: ", path)),
        NativeError::SaslError(msg) => HfsError::Auth(
            msg_or_default(msg, "SASL authentication failed"),
        ),
        NativeError::NoSaslMechanism => HfsError::Auth(copy_str("no valid SASL mechanism")),
        NativeError::RpcError(cls, msg) => map_rpc_error(cls, msg, path),
        NativeError::FatalRpcError(cls, msg) => map_rpc_error(cls, msg, path),
        NativeError::Other(text) => HfsError::Connection(text),
    }
}

} // verus!
