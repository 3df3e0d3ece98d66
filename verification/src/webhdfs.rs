//! The WebHDFS REST backend: request URLs, and the interpretation of the
//! NameNode's responses. The HTTP exchange itself is the caller's.
use vstd::prelude::*;
use crate::client::{BlockInfo, ClusterHealth, ContentSummary, FileStatus};
use crate::error::{HfsError, HfsErrorView};
use crate::text::{
    concat2, concat3, copy_str, decimal_digits, has_prefix, has_suffix, starts_with, str_eq,
    trim_end, trim_end_char, u64_to_decimal, Trim,
};

verus! {

/// A WebHDFS endpoint: the NameNode's base URL and the user for simple
/// (non-Kerberos) authentication by `user.name`.
#[derive(Debug, Clone)]
pub struct WebHdfsClient {
    pub base_url: String,
    pub user: String,
}

/// The `FileStatus` object of a WebHDFS JSON response.
#[derive(Debug)]
pub struct WFileStatus {
    pub path_suffix: String,
    pub type_: String,
    pub length: u64,
    pub owner: String,
    pub group: String,
    pub permission: String,
    pub replication: u16,
    pub block_size: u64,
    pub modification_time: u64,
    pub access_time: u64,
}

impl Clone for WFileStatus {
    fn clone(&self) -> (r: Self)
        ensures
            r == *self,
    {
        WFileStatus {
            path_suffix: self.path_suffix.clone(),
            type_: self.type_.clone(),
            length: self.length,
            owner: self.owner.clone(),
            group: self.group.clone(),
            permission: self.permission.clone(),
            replication: self.replication,
            block_size: self.block_size,
            modification_time: self.modification_time,
            access_time: self.access_time,
        }
    }
}

/// The `ContentSummary` object of a WebHDFS JSON response.
#[derive(Debug, Clone)]
pub struct WContentSummary {
    pub directory_count: u64,
    pub file_count: u64,
    pub length: u64,
    pub quota: i64,
    pub space_consumed: u64,
    pub space_quota: i64,
}

/// A `BlockLocation` object of a WebHDFS JSON response.
#[derive(Debug, Clone)]
pub struct WBlockLocation {
    pub corrupt: bool,
    pub length: u64,
    pub names: Vec<String>,
}

/// The `RemoteException` object of a WebHDFS error response.
#[derive(Debug, Clone)]
pub struct RemoteException {
    pub exception: String,
    pub message: String,
}

/// A failed HTTP request: a status other than success, with the response
/// body and the `RemoteException` it holds if any, or a transport failure.
#[derive(Debug)]
pub enum HttpFailure {
    Status { code: u16, body: String, remote: Option<RemoteException> },
    Transport(String),
}

/// The values of the `FSNamesystemState` JMX bean that are numbers.
#[derive(Debug, Clone)]
pub struct FsStateBean {
    pub num_live_data_nodes: Option<u64>,
    pub num_dead_data_nodes: Option<u64>,
    pub num_stale_data_nodes: Option<u64>,
    pub under_replicated_blocks: Option<u64>,
    pub corrupt_blocks: Option<u64>,
}

/// The values of the `NameNodeInfo` JMX bean: the capacities that are
/// numbers and the HA state when it is a string.
#[derive(Debug, Clone)]
pub struct NameNodeInfoBean {
    pub total: Option<u64>,
    pub used: Option<u64>,
    pub free: Option<u64>,
    pub ha_state: Option<String>,
}

// ─── Specifications ─────────────────────────────────────────────────────────

/// `path` starting with `/` and, unless it is the root, without trailing
/// slashes; a path made of slashes alone is the root.
pub open spec fn normalize_path_spec(path: Seq<char>) -> Seq<char> {
    let p = if has_prefix(path, "/"@) { path } else { "/"@ + path };
    let t = trim_end(p, Trim::Char('/'));
    if t.len() == 0 {
        "/"@
    } else {
        t
    }
}

/// `{base}/webhdfs/v1{path}?op={op}&user.name={user}`.
pub open spec fn op_url_spec(base: Seq<char>, path: Seq<char>, op: Seq<char>, user: Seq<char>) -> Seq<
    char,
> {
    base + "/webhdfs/v1"@ + normalize_path_spec(path) + "?op="@ + op + "&user.name="@ + user
}

pub open spec fn remote_exception_spec(exception: Seq<char>, message: Seq<char>, path: Seq<char>) -> HfsErrorView {
    if exception == "FileNotFoundException"@ || exception == "PathNotFoundException"@ {
        HfsErrorView::NotFound(path)
    } else if exception == "AccessControlException"@ || exception == "PermissionDeniedException"@ {
        HfsErrorView::Permission(path + ": "@ + message)
    } else if exception == "SafeModeException"@ {
        HfsErrorView::NameNodeUnavailable("NameNode in safemode: "@ + message)
    } else {
        HfsErrorView::Hdfs(exception + ": "@ + message)
    }
}

/// The path of a listed entry: the parent itself for an empty suffix, else
/// the suffix under the parent.
pub open spec fn child_path_spec(parent: Seq<char>, suffix: Seq<char>) -> Seq<char> {
    if suffix.len() == 0 {
        parent
    } else if parent == "/"@ {
        "/"@ + suffix
    } else {
        trim_end(parent, Trim::Char('/')) + "/"@ + suffix
    }
}

pub open spec fn file_status_spec(ws: WFileStatus, parent: Seq<char>, fs: FileStatus) -> bool {
    &&& fs.path@ == child_path_spec(parent, ws.path_suffix@)
    &&& fs.length == ws.length
    &&& fs.is_dir == (ws.type_@ == "DIRECTORY"@)
    &&& fs.replication == ws.replication
    &&& fs.block_size == ws.block_size
    &&& fs.modification_time == ws.modification_time
    &&& fs.access_time == ws.access_time
    &&& fs.owner@ == ws.owner@
    &&& fs.group@ == ws.group@
    &&& fs.permission@ == ws.permission@
}

pub open spec fn http_failure_spec(f: HttpFailure, path: Seq<char>) -> HfsErrorView {
    match f {
        HttpFailure::Status { code, body, remote } => if code == 404 {
            HfsErrorView::NotFound(path)
        } else if code == 403 {
            HfsErrorView::Permission(path)
        } else if code == 401 {
            HfsErrorView::Auth("WebHDFS authentication required"@)
        } else if code == 503 {
            HfsErrorView::NameNodeUnavailable("HTTP 503 from NameNode"@)
        } else {
            match remote {
                Some(ex) => remote_exception_spec(ex.exception@, ex.message@, path),
                None => HfsErrorView::Hdfs("HTTP "@ + decimal_digits(code as nat) + ": "@ + body@),
            }
        },
        HttpFailure::Transport(m) => HfsErrorView::Connection(m@),
    }
}

pub open spec fn or_zero(v: Option<u64>) -> u64 {
    match v {
        Some(x) => x,
        None => 0,
    }
}

pub open spec fn bool_text(b: bool) -> Seq<char> {
    if b { "true"@ } else { "false"@ }
}

// ─── URLs ───────────────────────────────────────────────────────────────────

/// Ensure a path starts with `/` and has no trailing slash (except the root).
pub fn normalize_path(path: &str) -> (r: String)
    ensures
        r@ == normalize_path_spec(path@),
{
    let p = if starts_with(path, "/") { copy_str(path) } else { concat2("/", path) };
    let t = trim_end_char(p.as_str(), '/');
    proof {
        reveal_strlit("");
        reveal_strlit("/");
        if t@.len() == 0 {
            assert(t@ =~= ""@);
        }
    }
    if str_eq(t.as_str(), "") {
        copy_str("/")
    } else {
        t
    }
}

/// The URL of a WebHDFS operation, with `user.name` for simple authentication.
/// Further query parameters can be appended to it.
pub fn op_url(base_url: &str, path: &str, op: &str, user: &str) -> (r: String)
    ensures
        r@ == op_url_spec(base_url@, path@, op@, user@),
{
    let np = normalize_path(path);
    let mut r = concat3(base_url, "/webhdfs/v1", np.as_str());
    r.append("?op=");
    r.append(op);
    r.append("&user.name=");
    r.append(user);
    r
}

fn bool_str(b: bool) -> (r: &'static str)
    ensures
        r@ == bool_text(b),
{
    if b { "true" } else { "false" }
}

impl WebHdfsClient {
    /// An endpoint at `base_url` (trailing slashes dropped) for the default user "hdfs".
    pub fn new(base_url: &str) -> (c: Self)
        ensures
            c.base_url@ == trim_end(base_url@, Trim::Char('/')),
            c.user@ == "hdfs"@,
    {
        Self::new_with_user(base_url, "hdfs")
    }

    /// An endpoint at `base_url` (trailing slashes dropped) for `user`.
    pub fn new_with_user(base_url: &str, user: &str) -> (c: Self)
        ensures
            c.base_url@ == trim_end(base_url@, Trim::Char('/')),
            c.user@ == user@,
    {
        WebHdfsClient { base_url: trim_end_char(base_url, '/'), user: copy_str(user) }
    }

    /// The URL of operation `op` on `path`.
    pub fn op_url(&self, path: &str, op: &str) -> (r: String)
        ensures
            r@ == op_url_spec(self.base_url@, path@, op@, self.user@),
    {
        op_url(self.base_url.as_str(), path, op, self.user.as_str())
    }

    /// The URL of one page of a `LISTSTATUS_BATCH` listing, after the entry
    /// `start_after` (from the beginning when it is empty).
    pub fn list_batch_url(&self, path: &str, start_after: &str) -> (r: String)
        ensures
            r@ == if start_after@.len() == 0 {
                op_url_spec(self.base_url@, path@, "LISTSTATUS_BATCH"@, self.user@)
            } else {
                op_url_spec(self.base_url@, path@, "LISTSTATUS_BATCH"@, self.user@) + "&startAfter="@
                    + start_after@
            },
    {
        let base = self.op_url(path, "LISTSTATUS_BATCH");
        if start_after.is_empty() {
            base
        } else {
            concat3(base.as_str(), "&startAfter=", start_after)
        }
    }

    /// The URL of `MKDIRS` on `path`.
    pub fn mkdir_url(&self, path: &str, create_parent: bool) -> (r: String)
        ensures
            r@ == op_url_spec(self.base_url@, path@, "MKDIRS"@, self.user@) + "&createParent="@
                + bool_text(create_parent),
    {
        let base = self.op_url(path, "MKDIRS");
        concat3(base.as_str(), "&createParent=", bool_str(create_parent))
    }

    /// The URL of `DELETE` on `path`.
    pub fn delete_url(&self, path: &str, recursive: bool) -> (r: String)
        ensures
            r@ == op_url_spec(self.base_url@, path@, "DELETE"@, self.user@) + "&recursive="@
                + bool_text(recursive),
    {
        let base = self.op_url(path, "DELETE");
        concat3(base.as_str(), "&recursive=", bool_str(recursive))
    }

    /// The URL of `OPEN` for `length` bytes of `path` from `offset`.
    pub fn open_url(&self, path: &str, offset: u64, length: u64) -> (r: String)
        ensures
            r@ == op_url_spec(self.base_url@, path@, "OPEN"@, self.user@) + "&offset="@
                + decimal_digits(offset as nat) + "&length="@ + decimal_digits(length as nat)
                + "&buffersize=131072"@,
    {
        let mut r = self.op_url(path, "OPEN");
        let o = u64_to_decimal(offset);
        let l = u64_to_decimal(length);
        r.append("&offset=");
        r.append(o.as_str());
        r.append("&length=");
        r.append(l.as_str());
        r.append("&buffersize=131072");
        r
    }

    /// The URL of the NameNode's JMX bean `name`.
    pub fn jmx_url(&self, name: &str) -> (r: String)
        ensures
            r@ == self.base_url@ + "/jmx?qry=Hadoop:service=NameNode,name="@ + name@,
    {
        concat3(self.base_url.as_str(), "/jmx?qry=Hadoop:service=NameNode,name=", name)
    }
}

// ─── Responses ──────────────────────────────────────────────────────────────

/// Map a WebHDFS `RemoteException` on `path` to an `HfsError`.
pub fn map_remote_exception(ex: RemoteException, path: &str) -> (r: HfsError)
    ensures
        r@ == remote_exception_spec(ex.exception@, ex.message@, path@),
{
    let e = ex.exception.as_str();
    if str_eq(e, "FileNotFoundException") || str_eq(e, "PathNotFoundException") {
        HfsError::NotFound(copy_str(path))
    } else if str_eq(e, "AccessControlException") || str_eq(e, "PermissionDeniedException") {
        HfsError::Permission(concat3(path, ": ", ex.message.as_str()))
    } else if str_eq(e, "SafeModeException") {
        HfsError::NameNodeUnavailable(concat2("NameNode in safemode: ", ex.message.as_str()))
    } else {
        HfsError::Hdfs(concat3(e, ": ", ex.message.as_str()))
    }
}

/// Map a failed HTTP request on `path` to an `HfsError`.
pub fn map_http_failure(f: HttpFailure, path: &str) -> (r: HfsError)
    ensures
        r@ == http_failure_spec(f, path@),
{
    match f {
        HttpFailure::Status { code, body, remote } => {
            if code == 404 {
                HfsError::NotFound(copy_str(path))
            } else if code == 403 {
                HfsError::Permission(copy_str(path))
            } else if code == 401 {
                HfsError::Auth(copy_str("WebHDFS authentication required"))
            } else if code == 503 {
                HfsError::NameNodeUnavailable(copy_str("HTTP 503 from NameNode"))
            } else {
                match remote {
                    Some(ex) => map_remote_exception(ex, path),
                    None => {
                        let c = u64_to_decimal(code as u64);
                        let mut m = concat3("HTTP ", c.as_str(), ": ");
                        m.append(body.as_str());
                        HfsError::Hdfs(m)
                    },
                }
            }
        },
        HttpFailure::Transport(m) => HfsError::Connection(m),
    }
}

/// The common `FileStatus` of a WebHDFS `FileStatus` listed under `parent_path`.
pub fn convert_file_status(ws: WFileStatus, parent_path: &str) -> (fs: FileStatus)
    ensures
        file_status_spec(ws, parent_path@, fs),
{
    let path = if ws.path_suffix.as_str().is_empty() {
        copy_str(parent_path)
    } else if str_eq(parent_path, "/") {
        concat2("/", ws.path_suffix.as_str())
    } else {
        let p = trim_end_char(parent_path, '/');
        concat3(p.as_str(), "/", ws.path_suffix.as_str())
    };
    let is_dir = str_eq(ws.type_.as_str(), "DIRECTORY");
    FileStatus {
        path,
        length: ws.length,
        is_dir,
        replication: ws.replication,
        block_size: ws.block_size,
        modification_time: ws.modification_time,
        access_time: ws.access_time,
        owner: ws.owner,
        group: ws.group,
        permission: ws.permission,
    }
}

/// The response to a request on `path`: its `RemoteException`, if it held
/// one, fails the request; so does a body that does not parse as expected.
pub open spec fn response_error_spec<T>(remote: Option<RemoteException>, parsed: Result<T, String>, path: Seq<char>) -> Option<HfsErrorView> {
    match remote {
        Some(ex) => Some(remote_exception_spec(ex.exception@, ex.message@, path)),
        None => match parsed {
            Err(m) => Some(HfsErrorView::Connection("JSON parse: "@ + m@)),
            Ok(_) => None,
        },
    }
}

/// The result of `LISTSTATUS` on `path`.
pub fn list_result(path: &str, remote: Option<RemoteException>, parsed: Result<Vec<WFileStatus>, String>) -> (r: Result<Vec<FileStatus>, HfsError>)
    ensures
        match response_error_spec(remote, parsed, path@) {
            Some(v) => r matches Err(e) && e@ == v,
            None => r matches Ok(out) && parsed matches Ok(ws) && out@.len() == ws@.len()
                && forall|i: int| 0 <= i < ws@.len() ==> file_status_spec(ws@[i], path@, #[trigger] out@[i]),
        },
{
    match remote {
        Some(ex) => Err(map_remote_exception(ex, path)),
        None => match parsed {
            Err(m) => Err(HfsError::Connection(concat2("JSON parse: ", m.as_str()))),
            Ok(ws) => Ok(convert_all(ws, path)),
        },
    }
}

/// The result of `GETFILESTATUS` on `path`.
pub fn stat_result(path: &str, remote: Option<RemoteException>, parsed: Result<WFileStatus, String>) -> (r: Result<FileStatus, HfsError>)
    ensures
        match response_error_spec(remote, parsed, path@) {
            Some(v) => r matches Err(e) && e@ == v,
            None => r matches Ok(fs) && parsed matches Ok(ws) && file_status_spec(ws, path@, fs),
        },
{
    match remote {
        Some(ex) => Err(map_remote_exception(ex, path)),
        None => match parsed {
            Err(m) => Err(HfsError::Connection(concat2("JSON parse: ", m.as_str()))),
            Ok(ws) => Ok(convert_file_status(ws, path)),
        },
    }
}

/// The result of `GETCONTENTSUMMARY` on `path`.
pub fn content_summary_result(path: &str, remote: Option<RemoteException>, parsed: Result<WContentSummary, String>) -> (r: Result<ContentSummary, HfsError>)
    ensures
        match response_error_spec(remote, parsed, path@) {
            Some(v) => r matches Err(e) && e@ == v,
            None => r matches Ok(cs) && parsed matches Ok(w) && cs.directory_count == w.directory_count
                && cs.file_count == w.file_count && cs.length == w.length && cs.space_consumed
                == w.space_consumed && cs.quota == w.quota && cs.space_quota == w.space_quota,
        },
{
    match remote {
        Some(ex) => Err(map_remote_exception(ex, path)),
        None => match parsed {
            Err(m) => Err(HfsError::Connection(concat2("JSON parse: ", m.as_str()))),
            Ok(w) => Ok(ContentSummary {
                directory_count: w.directory_count,
                file_count: w.file_count,
                length: w.length,
                space_consumed: w.space_consumed,
                quota: w.quota,
                space_quota: w.space_quota,
            }),
        },
    }
}

/// The blocks that `GETFILEBLOCKLOCATIONS` lists, numbered in order (this
/// endpoint does not give the blocks' own ids).
pub open spec fn block_spec(loc: WBlockLocation, i: int, b: BlockInfo) -> bool {
    &&& b.block_id == i
    &&& b.length == loc.length
    &&& b.corrupt == loc.corrupt
    &&& b.datanode_locations@ == loc.names@
}

/// The result of `GETFILEBLOCKLOCATIONS` on `path`.
pub fn blocks_result(path: &str, remote: Option<RemoteException>, parsed: Result<Vec<WBlockLocation>, String>) -> (r: Result<Vec<BlockInfo>, HfsError>)
    ensures
        match response_error_spec(remote, parsed, path@) {
            Some(v) => r matches Err(e) && e@ == v,
            None => r matches Ok(out) && parsed matches Ok(locs) && out@.len() == locs@.len()
                && forall|i: int| 0 <= i < locs@.len() ==> block_spec(locs@[i], i, #[trigger] out@[i]),
        },
{
    match remote {
        Some(ex) => Err(map_remote_exception(ex, path)),
        None => match parsed {
            Err(m) => Err(HfsError::Connection(concat2("JSON parse: ", m.as_str()))),
            Ok(locs) => {
                let mut out: Vec<BlockInfo> = Vec::new();
                let mut i: usize = 0;
                while i < locs.len()
                    invariant
                        i <= locs.len(),
                        out@.len() == i,
                        forall|j: int| 0 <= j < i ==> block_spec(locs@[j], j, #[trigger] out@[j]),
                    decreases locs.len() - i,
                {
                    let loc = &locs[i];
                    out.push(BlockInfo {
                        block_id: i as u64,
                        length: loc.length,
                        corrupt: loc.corrupt,
                        datanode_locations: loc.names.clone(),
                    });
                    i += 1;
                }
                Ok(out)
            },
        },
    }
}

/// The result of a write operation (`MKDIRS`, `DELETE`) on `path`: it fails
/// only with the `RemoteException` of the response.
pub fn write_result(path: &str, remote: Option<RemoteException>) -> (r: Result<(), HfsError>)
    ensures
        match remote {
            Some(ex) => r matches Err(e) && e@ == remote_exception_spec(ex.exception@, ex.message@, path@),
            None => r is Ok,
        },
{
    match remote {
        Some(ex) => Err(map_remote_exception(ex, path)),
        None => Ok(()),
    }
}

/// The cluster health from the two JMX beans. Without the `FSNamesystemState`
/// bean the request fails; values missing from a bean count as 0, the
/// datanode counts are kept to their low 32 bits, and without the
/// `NameNodeInfo` bean the capacities are 0 and the HA state unknown.
pub fn build_cluster_health(fs: Option<FsStateBean>, nn: Option<NameNodeInfoBean>) -> (r: Result<ClusterHealth, HfsError>)
    ensures
        match fs {
            None => r matches Err(e) && e@ == HfsErrorView::Connection("FSNamesystemState JMX bean not found"@),
            Some(b) => r matches Ok(h) && h.live_datanodes == or_zero(b.num_live_data_nodes) as u32
                && h.dead_datanodes == or_zero(b.num_dead_data_nodes) as u32
                && h.stale_datanodes == or_zero(b.num_stale_data_nodes) as u32
                && h.under_replicated_blocks == or_zero(b.under_replicated_blocks)
                && h.corrupt_blocks == or_zero(b.corrupt_blocks)
                && match nn {
                    Some(n) => h.capacity_total_bytes == or_zero(n.total) && h.capacity_used_bytes
                        == or_zero(n.used) && h.capacity_remaining_bytes == or_zero(n.free)
                        && h.namenode_ha_state == n.ha_state,
                    None => h.capacity_total_bytes == 0 && h.capacity_used_bytes == 0
                        && h.capacity_remaining_bytes == 0 && h.namenode_ha_state is None,
                },
        },
{
    let b = match fs {
        Some(b) => b,
        None => {
            return Err(HfsError::Connection(copy_str("FSNamesystemState JMX bean not found")));
        },
    };
    let live = #[verifier::truncate] (unwrap_or_zero(b.num_live_data_nodes) as u32);
    let dead = #[verifier::truncate] (unwrap_or_zero(b.num_dead_data_nodes) as u32);
    let stale = #[verifier::truncate] (unwrap_or_zero(b.num_stale_data_nodes) as u32);
    let (total, used, free, ha) = match nn {
        Some(n) => (unwrap_or_zero(n.total), unwrap_or_zero(n.used), unwrap_or_zero(n.free), n.ha_state),
        None => (0, 0, 0, None),
    };
    Ok(ClusterHealth {
        live_datanodes: live,
        dead_datanodes: dead,
        stale_datanodes: stale,
        under_replicated_blocks: unwrap_or_zero(b.under_replicated_blocks),
        corrupt_blocks: unwrap_or_zero(b.corrupt_blocks),
        capacity_total_bytes: total,
        capacity_used_bytes: used,
        capacity_remaining_bytes: free,
        namenode_ha_state: ha,
    })
}

fn unwrap_or_zero(v: Option<u64>) -> (r: u64)
    ensures
        r == or_zero(v),
{
    match v {
        Some(x) => x,
        None => 0,
    }
}

fn convert_all(ws: Vec<WFileStatus>, path: &str) -> (out: Vec<FileStatus>)
    ensures
        out@.len() == ws@.len(),
        forall|i: int| 0 <= i < ws@.len() ==> file_status_spec(ws@[i], path@, #[trigger] out@[i]),
{
    let mut out: Vec<FileStatus> = Vec::new();
    let mut i: usize = 0;
    while i < ws.len()
        invariant
            i <= ws.len(),
            out@.len() == i,
            forall|j: int| 0 <= j < i ==> file_status_spec(ws@[j], path@, #[trigger] out@[j]),
        decreases ws.len() - i,
    {
        let w = ws[i].clone();
        out.push(convert_file_status(w, path));
        i += 1;
    }
    out
}

/// `after` is `before` followed by the entries of one page of a listing of
/// `parent`, converted, in order.
pub open spec fn batch_appended(
    before: Seq<FileStatus>,
    batch: Seq<WFileStatus>,
    parent: Seq<char>,
    after: Seq<FileStatus>,
) -> bool {
    &&& after.len() == before.len() + batch.len()
    &&& forall|i: int| 0 <= i < before.len() ==> #[trigger] after[i] == before[i]
    &&& forall|i: int|
        0 <= i < batch.len() ==> file_status_spec(batch[i], parent, #[trigger] after[before.len() + i])
}

/// Add one page of a `LISTSTATUS_BATCH` listing of `path` to `all`. Returns
/// the entry after which the next page starts (the last suffix of the page,
/// or "" for an empty page), or `None` when no entry remains.
pub fn list_batch_step(all: &mut Vec<FileStatus>, batch: Vec<WFileStatus>, remaining: u64, path: &str) -> (next: Option<String>)
    ensures
        final(all)@.len() == old(all)@.len() + batch@.len(),
        forall|i: int| 0 <= i < old(all)@.len() ==> #[trigger] final(all)@[i] == old(all)@[i],
        forall|i: int|
            0 <= i < batch@.len() ==> file_status_spec(batch@[i], path@, #[trigger] final(all)@[old(all)@.len() + i]),
        batch_appended(old(all)@, batch@, path@, final(all)@),
        remaining == 0 ==> next is None,
        remaining != 0 ==> (next matches Some(s) && s@ == if batch@.len() == 0 {
            Seq::<char>::empty()
        } else {
            batch@.last().path_suffix@
        }),
{
    let last = if batch.len() == 0 { String::new() } else { batch[batch.len() - 1].path_suffix.clone() };
    let converted = convert_all(batch, path);
    let ghost before = all@;
    let mut i: usize = 0;
    while i < converted.len()
        invariant
            i <= converted.len(),
            all@.len() == before.len() + i,
            forall|j: int| 0 <= j < before.len() ==> #[trigger] all@[j] == before[j],
            forall|j: int| 0 <= j < i ==> #[trigger] all@[before.len() + j] == converted@[j],
        decreases converted.len() - i,
    {
        let fs = converted[i].clone();
        all.push(fs);
        i += 1;
    }
    if remaining == 0 {
        None
    } else {
        Some(last)
    }
}

/// The delay after `delay`: twice as long, at most 30 seconds.
pub open spec fn backoff_next(delay: u64) -> u64 {
    if 2 * delay <= 30 {
        (2 * delay) as u64
    } else {
        30
    }
}

/// The retry policy for an unavailable NameNode: after a failed attempt
/// (counted from 0) with error `e`, wait `delay_secs` and retry with twice the
/// delay, at most 30 seconds, while attempts remain; `None` means give up
/// and report `e`.
pub fn backoff_decision(attempt: u32, max_retries: u32, delay_secs: u64, e: &HfsError) -> (r: Option<(u64, u64)>)
    ensures
        r matches Some((wait, next)) ==> wait == delay_secs && next == backoff_next(delay_secs),
        r is Some <==> (e@ is NameNodeUnavailable && attempt < max_retries),
{
    match e {
        HfsError::NameNodeUnavailable(_) => {
            if attempt < max_retries {
                let doubled = if delay_secs <= 15 { delay_secs * 2 } else { 30 };
                Some((delay_secs, if doubled <= 30 { doubled } else { 30 }))
            } else {
                None
            }
        },
        _ => None,
    }
}

} // verus!
