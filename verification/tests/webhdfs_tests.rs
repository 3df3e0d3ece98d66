use hfs::client::FileStatus;
use hfs::error::HfsError;
use hfs::webhdfs::{
    backoff_decision, build_cluster_health, list_batch_step, list_result, map_http_failure,
    normalize_path, op_url, stat_result, FsStateBean, HttpFailure, NameNodeInfoBean,
    RemoteException, WFileStatus, WebHdfsClient,
};

fn wstatus(suffix: &str, dir: bool) -> WFileStatus {
    WFileStatus {
        path_suffix: suffix.to_string(),
        type_: if dir { "DIRECTORY" } else { "FILE" }.to_string(),
        length: 1851,
        owner: "hdfs".to_string(),
        group: "supergroup".to_string(),
        permission: "644".to_string(),
        replication: 3,
        block_size: 134217728,
        modification_time: 1706832000000,
        access_time: 1706832001000,
    }
}

#[test]
fn urls_follow_the_webhdfs_layout() {
    let c = WebHdfsClient::new("http://nn:9870//");
    assert_eq!(c.base_url, "http://nn:9870");
    assert_eq!(c.user, "hdfs");
    assert_eq!(c.op_url("", "LISTSTATUS"), "http://nn:9870/webhdfs/v1/?op=LISTSTATUS&user.name=hdfs");
    assert_eq!(
        c.op_url("no/such/path/", "GETFILESTATUS"),
        "http://nn:9870/webhdfs/v1/no/such/path?op=GETFILESTATUS&user.name=hdfs"
    );
    assert_eq!(
        c.list_batch_url("/d", "x.parquet"),
        "http://nn:9870/webhdfs/v1/d?op=LISTSTATUS_BATCH&user.name=hdfs&startAfter=x.parquet"
    );
    assert_eq!(
        c.mkdir_url("/d", true),
        "http://nn:9870/webhdfs/v1/d?op=MKDIRS&user.name=hdfs&createParent=true"
    );
    assert_eq!(
        c.delete_url("/d", false),
        "http://nn:9870/webhdfs/v1/d?op=DELETE&user.name=hdfs&recursive=false"
    );
    assert_eq!(
        c.open_url("/f", 10, 20),
        "http://nn:9870/webhdfs/v1/f?op=OPEN&user.name=hdfs&offset=10&length=20&buffersize=131072"
    );
    assert_eq!(
        c.jmx_url("FSNamesystemState"),
        "http://nn:9870/jmx?qry=Hadoop:service=NameNode,name=FSNamesystemState"
    );
    let u = WebHdfsClient::new_with_user("http://nn:9870", "alice");
    assert_eq!(op_url(&u.base_url, "/a", "OPEN", &u.user), "http://nn:9870/webhdfs/v1/a?op=OPEN&user.name=alice");
}

#[test]
fn normalized_paths_begin_with_a_slash_and_do_not_end_with_one() {
    assert_eq!(normalize_path("data/x/"), "/data/x");
    assert_eq!(normalize_path("/"), "/");
    assert_eq!(normalize_path(""), "/");
    assert_eq!(normalize_path(&normalize_path("a//")), normalize_path("a//"));
    assert_eq!(normalize_path("//"), "/");
}

#[test]
fn list_converts_entries_under_the_parent() {
    let r = list_result("/parquet/", None, Ok(vec![wstatus("small.parquet", false), wstatus("sub", true)]))
        .expect("list should succeed");
    assert_eq!(r.len(), 2);
    assert_eq!(r[0].path, "/parquet/small.parquet");
    assert!(!r[0].is_dir);
    assert_eq!(r[0].length, 1851);
    assert!(r[1].is_dir);
    let root = list_result("/", None, Ok(vec![wstatus("parquet", true)])).unwrap();
    assert_eq!(root[0].path, "/parquet");
}

#[test]
fn stat_not_found_from_remote_exception() {
    let ex = RemoteException {
        exception: "FileNotFoundException".to_string(),
        message: "File does not exist: /no/such/path".to_string(),
    };
    let r = stat_result("/no/such/path", Some(ex), Err("ignored".to_string()));
    assert!(matches!(r, Err(HfsError::NotFound(p)) if p == "/no/such/path"));
    let s = stat_result("/f", None, Ok(wstatus("", false))).unwrap();
    assert_eq!(s.path, "/f");
}

#[test]
fn http_failures_map_to_errors() {
    let status = |code: u16, remote: Option<RemoteException>| HttpFailure::Status {
        code,
        body: "body".to_string(),
        remote,
    };
    assert!(matches!(map_http_failure(status(404, None), "/missing"), HfsError::NotFound(p) if p == "/missing"));
    assert!(matches!(map_http_failure(status(403, None), "/x"), HfsError::Permission(p) if p == "/x"));
    assert!(matches!(map_http_failure(status(401, None), "/x"), HfsError::Auth(m) if m == "WebHDFS authentication required"));
    assert!(matches!(map_http_failure(status(503, None), "/x"), HfsError::NameNodeUnavailable(m) if m == "HTTP 503 from NameNode"));
    assert!(matches!(map_http_failure(status(500, None), "/x"), HfsError::Hdfs(m) if m == "HTTP 500: body"));
    let safemode = RemoteException { exception: "SafeModeException".to_string(), message: "on".to_string() };
    assert!(matches!(map_http_failure(status(500, Some(safemode)), "/x"), HfsError::NameNodeUnavailable(m) if m == "NameNode in safemode: on"));
    let acl = RemoteException { exception: "AccessControlException".to_string(), message: "denied".to_string() };
    assert!(matches!(map_http_failure(status(500, Some(acl)), "/x"), HfsError::Permission(m) if m == "/x: denied"));
    let other = RemoteException { exception: "IOException".to_string(), message: "boom".to_string() };
    assert!(matches!(map_http_failure(status(500, Some(other)), "/x"), HfsError::Hdfs(m) if m == "IOException: boom"));
    assert!(matches!(map_http_failure(HttpFailure::Transport("refused".to_string()), "/x"), HfsError::Connection(m) if m == "refused"));
}

#[test]
fn unparseable_body_is_a_connection_error() {
    let r = list_result("/", None, Err("expected value".to_string()));
    assert!(matches!(r, Err(HfsError::Connection(m)) if m == "JSON parse: expected value"));
}

#[test]
fn batches_append_and_give_the_next_start() {
    let mut all: Vec<FileStatus> = Vec::new();
    let next = list_batch_step(&mut all, vec![wstatus("a", false), wstatus("b", false)], 3, "/d");
    assert_eq!(next.as_deref(), Some("b"));
    let last = list_batch_step(&mut all, vec![wstatus("c", false)], 0, "/d");
    assert_eq!(last, None);
    let paths: Vec<&str> = all.iter().map(|f| f.path.as_str()).collect();
    assert_eq!(paths, vec!["/d/a", "/d/b", "/d/c"]);
}

#[test]
fn backoff_doubles_up_to_thirty_seconds() {
    let unavailable = HfsError::NameNodeUnavailable("standby".to_string());
    assert_eq!(backoff_decision(0, 3, 1, &unavailable), Some((1, 2)));
    assert_eq!(backoff_decision(1, 3, 20, &unavailable), Some((20, 30)));
    assert_eq!(backoff_decision(3, 3, 4, &unavailable), None);
    assert_eq!(backoff_decision(0, 3, 1, &HfsError::NotFound("/x".to_string())), None);
}

#[test]
fn cluster_health_from_jmx_beans() {
    let fs = FsStateBean {
        num_live_data_nodes: Some(2),
        num_dead_data_nodes: Some(0),
        num_stale_data_nodes: None,
        under_replicated_blocks: Some(5),
        corrupt_blocks: Some(0),
    };
    let nn = NameNodeInfoBean { total: Some(100), used: Some(40), free: Some(60), ha_state: Some("active".to_string()) };
    let h = build_cluster_health(Some(fs), Some(nn)).expect("health");
    assert_eq!(h.live_datanodes, 2);
    assert_eq!(h.stale_datanodes, 0);
    assert_eq!(h.under_replicated_blocks, 5);
    assert_eq!(h.capacity_total_bytes, 100);
    assert_eq!(h.capacity_remaining_bytes, 60);
    assert_eq!(h.namenode_ha_state.as_deref(), Some("active"));
    assert!(build_cluster_health(None, None).is_err());
}

#[test]
fn backoff_waits_from_one_second() {
    let unavailable = HfsError::NameNodeUnavailable("standby".to_string());
    let mut delay = 1u64;
    let mut waits = Vec::new();
    let mut attempt = 0u32;
    while let Some((wait, next)) = backoff_decision(attempt, 7, delay, &unavailable) {
        waits.push(wait);
        delay = next;
        attempt += 1;
    }
    assert_eq!(waits, vec![1, 2, 4, 8, 16, 30, 30]);
}
