use hfs::avro::AvroInspector;
use hfs::builder::{Backend, BackendChoice, HdfsClientBuilder, ProbeOutcome};
use hfs::cli::{format_mtime, health_status, ls_perm_column, ls_repl_column, size_unit};
use hfs::client::{ClusterHealth, FileStatus};
use hfs::config::HdfsConfig;
use hfs::error::{map_native_error, msg_or_default, HfsError, NativeError};
use hfs::format::{detect_format, FileFormat};
use hfs::hive::HiveMetastoreClient;
use hfs::orc::OrcInspector;
use hfs::rpc::{map_file_status, not_supported, NativeFileStatus, WebHdfsOnly};
use hfs::schema::SchemaSource;

#[test]
fn formats_by_extension_or_magic() {
    assert_eq!(detect_format("/a/b.parquet", b""), FileFormat::Parquet);
    assert_eq!(detect_format("/a/b", b"PAR1...."), FileFormat::Parquet);
    assert_eq!(detect_format("/a/b.avro", b""), FileFormat::Avro);
    assert_eq!(detect_format("/a/b", b"Obj\x01rest"), FileFormat::Avro);
    assert_eq!(detect_format("/a/b.orc", b""), FileFormat::Orc);
    assert_eq!(detect_format("/a/b", b"ORC"), FileFormat::Orc);
    assert_eq!(detect_format("/a/b.csv", b"id,name"), FileFormat::Unknown);
}

#[test]
fn avro_headers() {
    let single = [0xC3u8, 0x01, 0, 0, 0, 0, 0, 0, 0, 0];
    let s = AvroInspector::inspect_header(&single, "/x.avro").unwrap();
    assert!(s.fields.is_empty());
    assert!(matches!(s.source, SchemaSource::Avro { ref path } if path == "/x.avro"));
    assert_eq!(AvroInspector::inspect_header(b"nope", "/x").unwrap_err(), "Not an Avro file (magic bytes mismatch)");
    assert!(AvroInspector::inspect_header(b"Obj\x01", "/x").is_err());
}

#[test]
fn hive_and_orc() {
    let c = HiveMetastoreClient::from_config("meta.example", "sales");
    assert_eq!(c.port, 9083);
    let s = c.get_table_schema("orders").unwrap();
    assert!(matches!(s.source, SchemaSource::Hive { ref database, ref table } if database == "sales" && table == "orders"));
    assert!(c.list_tables().unwrap().is_empty());
    assert!(OrcInspector::inspect("/x.orc").is_err());
}

#[test]
fn native_errors_map_to_hfs_errors() {
    assert!(matches!(map_native_error(NativeError::FileNotFound("x".into()), "/p"), HfsError::NotFound(p) if p == "/p"));
    assert!(matches!(map_native_error(NativeError::AlreadyExists("x".into()), "/p"), HfsError::Hdfs(m) if m == "already exists: /p"));
    assert!(matches!(map_native_error(NativeError::SaslError(String::new()), "/p"), HfsError::Auth(m) if m == "SASL authentication failed"));
    assert!(matches!(map_native_error(NativeError::SaslError("bad".into()), "/p"), HfsError::Auth(m) if m == "bad"));
    assert!(matches!(map_native_error(NativeError::NoSaslMechanism, "/p"), HfsError::Auth(m) if m == "no valid SASL mechanism"));
    assert!(matches!(map_native_error(NativeError::RpcError("org.apache.hadoop.security.AccessControlException".into(), "no".into()), "/p"), HfsError::Permission(p) if p == "/p"));
    assert!(matches!(map_native_error(NativeError::FatalRpcError("org.apache.hadoop.ipc.StandbyException".into(), "standby".into()), "/p"), HfsError::NameNodeUnavailable(m) if m == "standby"));
    assert!(matches!(map_native_error(NativeError::RpcError("X".into(), "y".into()), "/p"), HfsError::Hdfs(m) if m == "X: y"));
    assert!(matches!(map_native_error(NativeError::Other("io".into()), "/p"), HfsError::Connection(m) if m == "io"));
    assert_eq!(msg_or_default(String::new(), "d"), "d");
}

#[test]
fn native_status_and_unsupported_operations() {
    let s = map_file_status(NativeFileStatus {
        path: "/f".into(),
        length: 10,
        isdir: false,
        permission: 0o644,
        owner: "o".into(),
        group: "g".into(),
        modification_time: 5,
        access_time: 6,
    });
    assert_eq!(s.permission, "644");
    assert_eq!(s.replication, 0);
    assert_eq!(s.block_size, 0);
    assert!(matches!(not_supported(WebHdfsOnly::Health), HfsError::NotSupported(m) if m.starts_with("cluster health requires WebHDFS JMX")));
}

fn config(backend: &str, uri: &str) -> HdfsConfig {
    HdfsConfig { preferred_backend: backend.to_string(), namenode_uri: uri.to_string(), ..Default::default() }
}

#[test]
fn backend_selection() {
    assert_eq!(HdfsClientBuilder::choose_backend(&config("rpc", "")), BackendChoice::Rpc);
    assert_eq!(HdfsClientBuilder::choose_backend(&config("webhdfs", "")), BackendChoice::WebHdfs);
    assert_eq!(HdfsClientBuilder::choose_backend(&config("auto", "")), BackendChoice::Auto);
    let rpc = config("auto", "hdfs://nn:8020");
    assert!(HdfsClientBuilder::auto_tries_rpc(&rpc));
    assert_eq!(HdfsClientBuilder::auto_backend(&rpc, Some(ProbeOutcome::Succeeded)), Backend::Rpc);
    assert_eq!(HdfsClientBuilder::auto_backend(&rpc, Some(ProbeOutcome::NotFound)), Backend::Rpc);
    assert_eq!(HdfsClientBuilder::auto_backend(&rpc, Some(ProbeOutcome::TimedOut)), Backend::WebHdfs);
    assert_eq!(HdfsClientBuilder::auto_backend(&rpc, None), Backend::WebHdfs);
    let web = config("auto", "");
    assert!(!HdfsClientBuilder::auto_tries_rpc(&web));
    assert_eq!(HdfsClientBuilder::auto_backend(&web, Some(ProbeOutcome::Succeeded)), Backend::WebHdfs);
}

fn status(is_dir: bool, replication: u16) -> FileStatus {
    FileStatus {
        path: "/p".into(),
        length: 0,
        is_dir,
        replication,
        block_size: 0,
        modification_time: 0,
        access_time: 0,
        owner: "o".into(),
        group: "g".into(),
        permission: "755".into(),
    }
}

#[test]
fn listing_columns_and_times() {
    assert_eq!(ls_perm_column(&status(true, 0)), "d755");
    assert_eq!(ls_perm_column(&status(false, 3)), "-755");
    assert_eq!(ls_repl_column(&status(true, 3)), "-");
    assert_eq!(ls_repl_column(&status(false, 0)), "-");
    assert_eq!(ls_repl_column(&status(false, 3)), "3");
    assert_eq!(format_mtime(0), "-");
    assert_eq!(format_mtime(1706832000999), "1706832000");
}

#[test]
fn size_units() {
    assert_eq!(size_unit(1023), (1, "B"));
    assert_eq!(size_unit(1024), (1024, "KB"));
    assert_eq!(size_unit(134217728), (1048576, "MB"));
    assert_eq!(size_unit(48535150182), (1073741824, "GB"));
    assert_eq!(size_unit(1u64 << 40), (1099511627776, "TB"));
}

#[test]
fn health_status_levels() {
    let mut h = ClusterHealth {
        live_datanodes: 2,
        dead_datanodes: 0,
        stale_datanodes: 0,
        under_replicated_blocks: 0,
        corrupt_blocks: 0,
        capacity_total_bytes: 0,
        capacity_used_bytes: 0,
        capacity_remaining_bytes: 0,
        namenode_ha_state: None,
    };
    assert_eq!(health_status(&h), "OK");
    h.stale_datanodes = 1;
    assert_eq!(health_status(&h), "WARNING");
    h.corrupt_blocks = 1;
    assert_eq!(health_status(&h), "DEGRADED");
}

#[test]
fn test_hex_encode_more() {
    assert_eq!(hfs::parquet::hex_encode(&[]), "");
    assert_eq!(hfs::parquet::hex_encode(&[0x00, 0x0f, 0xa0]), "000fa0");
}
