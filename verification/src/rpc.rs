//! The native RPC backend: what its results become. The RPC exchange itself
//! is the caller's.
use vstd::prelude::*;
use crate::client::FileStatus;
use crate::error::{HfsError, HfsErrorView};
use crate::text::{copy_str, octal_digits, u64_to_octal};

verus! {

/// A file status as the native RPC client reports it.
#[derive(Debug)]
pub struct NativeFileStatus {
    pub path: String,
    pub length: usize,
    pub isdir: bool,
    pub permission: u16,
    pub owner: String,
    pub group: String,
    pub modification_time: u64,
    pub access_time: u64,
}

/// Convert a native file status to the common `FileStatus`. The native client
/// reports neither replication nor block size, so both are 0; the permission
/// bits are written in octal.
pub fn map_file_status(fs: NativeFileStatus) -> (r: FileStatus)
    ensures
        r.path@ == fs.path@,
        r.length == fs.length,
        r.is_dir == fs.isdir,
        r.replication == 0,
        r.block_size == 0,
        r.modification_time == fs.modification_time,
        r.access_time == fs.access_time,
        r.owner@ == fs.owner@,
        r.group@ == fs.group@,
        r.permission@ == octal_digits(fs.permission as nat),
{
    FileStatus {
        path: fs.path,
        length: fs.length as u64,
        is_dir: fs.isdir,
        replication: 0,
        block_size: 0,
        modification_time: fs.modification_time,
        access_time: fs.access_time,
        owner: fs.owner,
        group: fs.group,
        permission: u64_to_octal(fs.permission as u64),
    }
}

/// The operations that only the WebHDFS backend offers.
pub enum WebHdfsOnly {
    ContentSummary,
    Blocks,
    Health,
}

pub open spec fn not_supported_text(op: WebHdfsOnly) -> Seq<char> {
    match op {
        WebHdfsOnly::ContentSummary => "du/content_summary requires WebHDFS — use --backend webhdfs or auto"@,
        WebHdfsOnly::Blocks => "block locations require WebHDFS — use --backend webhdfs or auto"@,
        WebHdfsOnly::Health => "cluster health requires WebHDFS JMX — use --backend webhdfs or auto"@,
    }
}

/// The error of the RPC backend for an operation it does not offer.
pub fn not_supported(op: WebHdfsOnly) -> (r: HfsError)
    ensures
        r@ == HfsErrorView::NotSupported(not_supported_text(op)),
{
    match op {
        WebHdfsOnly::ContentSummary => HfsError::NotSupported(
            copy_str("du/content_summary requires WebHDFS — use --backend webhdfs or auto"),
        ),
        WebHdfsOnly::Blocks => HfsError::NotSupported(
            copy_str("block locations require WebHDFS — use --backend webhdfs or auto"),
        ),
        WebHdfsOnly::Health => HfsError::NotSupported(
            copy_str("cluster health requires WebHDFS JMX — use --backend webhdfs or auto"),
        ),
    }
}

} // verus!
