//! Decisions of the command-line tool that do not touch the terminal:
//! the columns of a listing and the status line of the health report.
use vstd::prelude::*;
use crate::client::{ClusterHealth, FileStatus};
use crate::text::{concat2, copy_str, decimal_digits, u64_to_decimal};

verus! {

/// A modification time in milliseconds since the epoch, shown in seconds;
/// 0 (unknown) shows as `-`.
pub fn format_mtime(ms: u64) -> (s: String)
    ensures
        s@ == if ms == 0 { "-"@ } else { decimal_digits((ms / 1000) as nat) },
{
    if ms == 0 {
        return copy_str("-");
    }
    u64_to_decimal(ms / 1000)
}

/// The unit of a human-readable size: the largest of TB, GB, MB and KB
/// (powers of 1024) that the byte count reaches, else bytes.
pub open spec fn size_unit_spec(bytes: u64) -> (u64, Seq<char>) {
    if bytes >= 1099511627776 {
        (1099511627776, "TB"@)
    } else if bytes >= 1073741824 {
        (1073741824, "GB"@)
    } else if bytes >= 1048576 {
        (1048576, "MB"@)
    } else if bytes >= 1024 {
        (1024, "KB"@)
    } else {
        (1, "B"@)
    }
}

/// The divisor and the name of the unit in which a byte count is shown
/// human-readably (the number itself, a quotient with one decimal, is
/// formatted by the caller).
pub fn size_unit(bytes: u64) -> (r: (u64, &'static str))
    ensures
        r.0 == size_unit_spec(bytes).0,
        r.1@ == size_unit_spec(bytes).1,
{
    if bytes >= 1099511627776 {
        (1099511627776, "TB")
    } else if bytes >= 1073741824 {
        (1073741824, "GB")
    } else if bytes >= 1048576 {
        (1048576, "MB")
    } else if bytes >= 1024 {
        (1024, "KB")
    } else {
        (1, "B")
    }
}

/// Overall status of the cluster: `DEGRADED` with corrupt blocks or dead
/// datanodes, else `WARNING` with under-replicated blocks or stale datanodes,
/// else `OK`.
pub fn health_status(h: &ClusterHealth) -> (s: &'static str)
    ensures
        s@ == if h.corrupt_blocks > 0 || h.dead_datanodes > 0 {
            "DEGRADED"@
        } else if h.under_replicated_blocks > 0 || h.stale_datanodes > 0 {
            "WARNING"@
        } else {
            "OK"@
        },
{
    if h.corrupt_blocks > 0 || h.dead_datanodes > 0 {
        "DEGRADED"
    } else if h.under_replicated_blocks > 0 || h.stale_datanodes > 0 {
        "WARNING"
    } else {
        "OK"
    }
}

/// The permission column of a listing: `d` or `-`, then the permission.
pub fn ls_perm_column(e: &FileStatus) -> (s: String)
    ensures
        s@ == (if e.is_dir { "d"@ } else { "-"@ }) + e.permission@,
{
    concat2(if e.is_dir { "d" } else { "-" }, e.permission.as_str())
}

/// The replication column of a listing: `-` for directories and for an
/// unknown (0) replication, else the replication.
pub fn ls_repl_column(e: &FileStatus) -> (s: String)
    ensures
        s@ == if e.is_dir || e.replication == 0 { "-"@ } else { decimal_digits(e.replication as nat) },
{
    if e.is_dir {
        copy_str("-")
    } else if e.replication > 0 {
        u64_to_decimal(e.replication as u64)
    } else {
        copy_str("-")
    }
}

} // verus!
