use hfs::config::{env_user, parse_env_line, HdfsConfig};
use hfs::hadoop_xml::parse_hadoop_xml;

const MINIMAL_XML: &str = r#"<?xml version="1.0"?>
<configuration>
  <property>
    <name>fs.defaultFS</name>
    <value>hdfs://namenode:8020</value>
  </property>
  <property>
    <name>hadoop.security.authentication</name>
    <value>simple</value>
  </property>
  <property>
    <name>dfs.replication</name>
    <value>3</value>
  </property>
</configuration>"#;

#[test]
fn test_parse_hadoop_xml_minimal() {
    let props = parse_hadoop_xml(MINIMAL_XML).expect("should parse");
    assert_eq!(
        props.get("fs.defaultFS").map(String::as_str),
        Some("hdfs://namenode:8020")
    );
    assert_eq!(
        props
            .get("hadoop.security.authentication")
            .map(String::as_str),
        Some("simple")
    );
    assert_eq!(props.get("dfs.replication").map(String::as_str), Some("3"));
}

#[test]
fn test_parse_hadoop_xml_empty_config() {
    let xml = "<configuration></configuration>";
    let props = parse_hadoop_xml(xml).expect("should parse empty config");
    assert!(props.is_empty());
}

#[test]
fn test_effective_webhdfs_url_from_hdfs_uri() {
    let cfg = HdfsConfig {
        namenode_uri: "hdfs://namenode.corp.com:8020".to_string(),
        ..Default::default()
    };
    assert_eq!(cfg.effective_webhdfs_url(), "http://namenode.corp.com:9870");
}

#[test]
fn test_effective_webhdfs_url_bare_host_port() {
    let cfg = HdfsConfig {
        namenode_uri: "namenode.corp.com:50070".to_string(),
        ..Default::default()
    };
    assert_eq!(
        cfg.effective_webhdfs_url(),
        "http://namenode.corp.com:50070"
    );
}

#[test]
fn test_apply_namenode_rpc_port_sets_namenode_uri() {
    let mut cfg = HdfsConfig::default();
    cfg.apply_namenode_str("namenode.corp.com:8020");
    assert_eq!(cfg.namenode_uri, "hdfs://namenode.corp.com:8020");
    assert!(cfg.webhdfs_url.is_none());
}

#[test]
fn test_apply_namenode_webhdfs_port_sets_url() {
    let mut cfg = HdfsConfig::default();
    cfg.apply_namenode_str("namenode.corp.com:9870");
    assert_eq!(
        cfg.webhdfs_url.as_deref(),
        Some("http://namenode.corp.com:9870")
    );
    assert!(cfg.namenode_uri.is_empty());
}

#[test]
fn test_apply_namenode_hdp2_port_sets_url() {
    let mut cfg = HdfsConfig::default();
    cfg.apply_namenode_str("namenode.corp.com:50070");
    assert_eq!(
        cfg.webhdfs_url.as_deref(),
        Some("http://namenode.corp.com:50070")
    );
}

#[test]
fn test_effective_webhdfs_url_explicit_override() {
    let cfg = HdfsConfig {
        namenode_uri: "hdfs://namenode:8020".to_string(),
        webhdfs_url: Some("http://namenode:9870".to_string()),
        ..Default::default()
    };
    assert_eq!(cfg.effective_webhdfs_url(), "http://namenode:9870");
}

#[test]
fn test_effective_user_defaults_to_hdfs() {
    let cfg = HdfsConfig::default();
    assert_eq!(cfg.effective_user(), "hdfs");
}

#[test]
fn test_effective_user_returns_configured() {
    let cfg = HdfsConfig {
        hdfs_user: Some("davide".to_string()),
        ..Default::default()
    };
    assert_eq!(cfg.effective_user(), "davide");
}

/// Applies every entry of a profile file's text, loading a Hadoop
/// configuration directory's core-site.xml where an entry asks for it.
fn merge_profile_text(cfg: &mut HdfsConfig, content: &str, core_site: Option<&str>) -> Vec<String> {
    let mut dirs = Vec::new();
    for (k, v) in hfs::config::env_file_entries(content) {
        if let Some(dir) = cfg.apply_env_key(&k, &v) {
            if let Some(xml) = core_site {
                cfg.merge_core_site_xml(xml).expect("core-site.xml should parse");
                cfg.apply_hdfs_site_props();
            }
            dirs.push(dir);
        }
    }
    dirs
}

#[test]
fn test_merge_from_core_site_reads_namenode() {
    let mut cfg = HdfsConfig::default();
    cfg.merge_core_site_xml(MINIMAL_XML).expect("merge should succeed");
    assert_eq!(cfg.namenode_uri, "hdfs://namenode:8020");
}

#[test]
fn test_merge_from_env_file_sets_namenode_and_user() {
    let content = "# comment\nHFS_NAMENODE=hdfs://nn.test:8020\nHFS_USER=testuser\nHFS_BACKEND=rpc\n";
    let mut cfg = HdfsConfig::default();
    merge_profile_text(&mut cfg, content, None);
    assert_eq!(cfg.namenode_uri, "hdfs://nn.test:8020");
    assert_eq!(cfg.hdfs_user.as_deref(), Some("testuser"));
    assert_eq!(cfg.preferred_backend, "rpc");
}

#[test]
fn test_merge_from_env_file_hadoop_conf_dir_loads_xml() {
    let content = "HADOOP_CONF_DIR=/tmp/hadoop-conf\n";
    let mut cfg = HdfsConfig::default();
    let dirs = merge_profile_text(&mut cfg, content, Some(MINIMAL_XML));
    assert_eq!(dirs, vec!["/tmp/hadoop-conf".to_string()]);
    assert_eq!(cfg.namenode_uri, "hdfs://namenode:8020");
}

#[test]
fn test_merge_from_env_file_quoted_values() {
    let content = "HFS_USER=\"myuser\"\nHFS_BACKEND='webhdfs'\n";
    let mut cfg = HdfsConfig::default();
    merge_profile_text(&mut cfg, content, None);
    assert_eq!(cfg.hdfs_user.as_deref(), Some("myuser"));
    assert_eq!(cfg.preferred_backend, "webhdfs");
}

#[test]
fn profile_keeps_values_already_set_but_replaces_system_namenode() {
    let mut cfg = HdfsConfig {
        hdfs_user: Some("alice".to_string()),
        preferred_backend: "rpc".to_string(),
        ..Default::default()
    };
    cfg.merge_core_site_xml(MINIMAL_XML).unwrap();
    assert_eq!(cfg.namenode_uri, "hdfs://namenode:8020");
    let content = "HFS_USER=bob\nHFS_BACKEND=webhdfs\nHFS_NAMENODE=hdfs://prof:8020\nKRB5_PRINCIPAL=hdfs/nn@REALM\n";
    merge_profile_text(&mut cfg, content, None);
    assert_eq!(cfg.hdfs_user.as_deref(), Some("alice"));
    assert_eq!(cfg.preferred_backend, "rpc");
    assert_eq!(cfg.namenode_uri, "hdfs://prof:8020");
    assert_eq!(cfg.kerberos_principal.as_deref(), Some("hdfs/nn@REALM"));
}

#[test]
fn profile_http_namenode_becomes_webhdfs_url() {
    let mut cfg = HdfsConfig::default();
    cfg.merge_core_site_xml(MINIMAL_XML).unwrap();
    merge_profile_text(&mut cfg, "HFS_NAMENODE=http://web.prof:9870\n", None);
    assert_eq!(cfg.webhdfs_url.as_deref(), Some("http://web.prof:9870"));
    assert_eq!(cfg.effective_webhdfs_url(), "http://web.prof:9870");
}

#[test]
fn hadoop_conf_dir_is_not_loaded_twice() {
    let mut cfg = HdfsConfig::default();
    cfg.merge_core_site_xml(MINIMAL_XML).unwrap();
    assert_eq!(cfg.apply_env_key("HADOOP_CONF_DIR", "/etc/hadoop/conf"), None);
}

#[test]
fn environment_overrides_files() {
    let mut cfg = HdfsConfig::default();
    cfg.merge_core_site_xml(MINIMAL_XML).unwrap();
    cfg.merge_env_overrides(
        Some("http://web.example:9870"),
        Some("carol".to_string()),
        Some("webhdfs".to_string()),
    );
    assert_eq!(cfg.webhdfs_url.as_deref(), Some("http://web.example:9870"));
    assert_eq!(cfg.namenode_uri, "hdfs://namenode:8020");
    assert_eq!(cfg.hdfs_user.as_deref(), Some("carol"));
    assert_eq!(cfg.preferred_backend, "webhdfs");
    assert_eq!(cfg.effective_webhdfs_url(), "http://web.example:9870");
}

#[test]
fn apply_namenode_twice_is_applying_once() {
    let mut once = HdfsConfig::default();
    once.apply_namenode_str("nn.example:8021");
    let mut twice = HdfsConfig::default();
    twice.apply_namenode_str("nn.example:8021");
    twice.apply_namenode_str("nn.example:8021");
    assert_eq!(once.namenode_uri, "hdfs://nn.example:8021");
    assert_eq!(twice.namenode_uri, once.namenode_uri);
    assert_eq!(twice.webhdfs_url, once.webhdfs_url);
}

#[test]
fn rpc_port_derives_default_webhdfs_port() {
    let mut cfg = HdfsConfig::default();
    cfg.apply_namenode_str("nn.example:8021");
    assert_eq!(cfg.effective_webhdfs_url(), "http://nn.example:9870");
}

#[test]
fn explicit_https_url_is_kept_without_trailing_slash() {
    let mut cfg = HdfsConfig::default();
    cfg.apply_namenode_str("https://secure.example:9871/");
    assert_eq!(cfg.webhdfs_url.as_deref(), Some("https://secure.example:9871/"));
    assert_eq!(cfg.effective_webhdfs_url(), "https://secure.example:9871");
}

#[test]
fn effective_url_defaults_to_localhost() {
    let cfg = HdfsConfig::default();
    assert_eq!(cfg.effective_webhdfs_url(), "http://localhost:9870");
}

#[test]
fn hdfs_site_properties_fill_unset_addresses() {
    let xml = "<configuration>\
        <property><name>dfs.namenode.http-address</name><value>web.example:9870</value></property>\
        <property><name>dfs.namenode.rpc-address</name><value>rpc.example:8020</value></property>\
        </configuration>";
    let mut cfg = HdfsConfig::default();
    cfg.merge_core_site_xml(xml).unwrap();
    cfg.apply_hdfs_site_props();
    assert_eq!(cfg.webhdfs_url.as_deref(), Some("http://web.example:9870"));
    assert_eq!(cfg.namenode_uri, "hdfs://rpc.example:8020");
}

#[test]
fn legacy_default_name_sets_namenode() {
    let xml = "<configuration><property><name>fs.default.name</name><value>hdfs://old:8020</value></property></configuration>";
    let mut cfg = HdfsConfig::default();
    cfg.merge_core_site_xml(xml).unwrap();
    assert_eq!(cfg.namenode_uri, "hdfs://old:8020");
    assert_eq!(cfg.raw_hadoop_props.get("fs.default.name").map(String::as_str), Some("hdfs://old:8020"));
}

#[test]
fn env_line_parsing() {
    assert_eq!(parse_env_line("   "), None);
    assert_eq!(parse_env_line("# HFS_USER=x"), None);
    assert_eq!(parse_env_line("NOEQUALS"), None);
    assert_eq!(
        parse_env_line("  KEY = \"a=b\"  "),
        Some(("KEY".to_string(), "a=b".to_string()))
    );
}

#[test]
fn later_xml_property_replaces_earlier() {
    let xml = "<configuration>\
        <property><name>k</name><value> first </value></property>\
        <property><name> k </name><value>second</value></property>\
        <property><name>only-name</name></property>\
        </configuration>";
    let props = parse_hadoop_xml(xml).unwrap();
    assert_eq!(props.get("k").map(String::as_str), Some("second"));
    assert!(!props.contains_key("only-name"));
}

#[test]
fn malformed_xml_is_an_error() {
    assert!(parse_hadoop_xml("<configuration><property></configuration>").is_err());
    assert!(parse_hadoop_xml("<configuration><name>&bogus;</name></configuration>").is_err());
}

#[test]
fn default_endpoints_when_nothing_is_configured() {
    let mut cfg = HdfsConfig::default();
    cfg.apply_default_namenode();
    assert!(!cfg.namenode_uri.starts_with("hdfs://"));
    assert_eq!(cfg.webhdfs_url.as_deref(), Some("http://localhost:9870"));
    assert_eq!(cfg.effective_webhdfs_url(), "http://localhost:9870");
    assert!(!hfs::builder::HdfsClientBuilder::auto_tries_rpc(&cfg));
    let mut web = HdfsConfig { webhdfs_url: Some("http://w:9870".to_string()), ..Default::default() };
    web.apply_default_namenode();
    assert!(web.namenode_uri.is_empty());
}

#[test]
fn conf_dir_files_merge_in_order_and_skip_bad_ones() {
    let core = "<configuration><property><name>fs.defaultFS</name><value>hdfs://a:8020</value></property></configuration>";
    let hdfs = "<configuration><property><name>dfs.namenode.http-address</name><value>a:9870</value></property>\
        <property><name>fs.defaultFS</name><value>hdfs://b:8020</value></property></configuration>";
    let broken = "<configuration><property></configuration>";
    let mut cfg = HdfsConfig::default();
    cfg.load_hadoop_conf_dir(&vec![Some(core.to_string()), Some(hdfs.to_string()), Some(broken.to_string()), None]);
    assert_eq!(cfg.namenode_uri, "hdfs://b:8020");
    assert_eq!(cfg.webhdfs_url.as_deref(), Some("http://a:9870"));
}

#[test]
fn namenode_follows_the_priority_chain() {
    let mut cfg = HdfsConfig::default();
    cfg.merge_core_site_xml(MINIMAL_XML).unwrap();
    assert_eq!(cfg.namenode_uri, "hdfs://namenode:8020");
    merge_profile_text(&mut cfg, "HFS_NAMENODE=hdfs://prof:8020\n", None);
    assert_eq!(cfg.namenode_uri, "hdfs://prof:8020");
    cfg.merge_env_overrides(Some("hdfs://env:8020"), None, None);
    assert_eq!(cfg.namenode_uri, "hdfs://env:8020");
    cfg.apply_default_namenode();
    assert_eq!(cfg.namenode_uri, "hdfs://env:8020");
    cfg.apply_namenode_str("hdfs://cli:8020");
    assert_eq!(cfg.namenode_uri, "hdfs://cli:8020");
}

fn conf_texts(core_site: &str) -> Vec<Option<String>> {
    vec![Some(core_site.to_string()), None, None, None]
}

fn xml_with_namenode(uri: &str) -> String {
    format!("<configuration><property><name>fs.defaultFS</name><value>{}</value></property></configuration>", uri)
}

#[test]
fn sources_give_defaults_when_all_are_silent() {
    let cfg = HdfsConfig::from_sources(None, vec![], vec![], None, None, None, None, None);
    assert!(cfg.namenode_uri.is_empty());
    assert_eq!(cfg.webhdfs_url.as_deref(), Some("http://localhost:9870"));
    assert_eq!(cfg.preferred_backend, "auto");
    assert_eq!(cfg.effective_user(), "hdfs");
}

#[test]
fn sources_follow_the_priority_chain() {
    let system = Some(conf_texts(&xml_with_namenode("hdfs://sys:8020")));
    let profile = vec![("HFS_NAMENODE".to_string(), "hdfs://prof:8020".to_string())];
    let only_system = HdfsConfig::from_sources(system.clone(), vec![], vec![], None, None, None, None, None);
    assert_eq!(only_system.namenode_uri, "hdfs://sys:8020");
    let with_profile = HdfsConfig::from_sources(system.clone(), profile.clone(), vec![], None, None, None, None, None);
    assert_eq!(with_profile.namenode_uri, "hdfs://prof:8020");
    let env_dir = Some(conf_texts(&xml_with_namenode("hdfs://envdir:8020")));
    let with_env_dir =
        HdfsConfig::from_sources(system.clone(), profile.clone(), vec![], env_dir.clone(), None, None, None, None);
    assert_eq!(with_env_dir.namenode_uri, "hdfs://envdir:8020");
    let with_env = HdfsConfig::from_sources(
        system,
        profile,
        vec![],
        env_dir,
        Some("hdfs://env:8020".to_string()),
        Some("carol".to_string()),
        Some("dave".to_string()),
        Some("webhdfs".to_string()),
    );
    assert_eq!(with_env.namenode_uri, "hdfs://env:8020");
    assert_eq!(with_env.hdfs_user.as_deref(), Some("carol"));
    assert_eq!(with_env.preferred_backend, "webhdfs");
}

#[test]
fn profile_conf_dir_is_loaded_from_what_was_read() {
    let profile = vec![("HADOOP_CONF_DIR".to_string(), "/opt/conf".to_string())];
    let dirs = vec![("/opt/conf".to_string(), conf_texts(MINIMAL_XML))];
    let cfg = HdfsConfig::from_sources(None, profile, dirs, None, None, None, None, None);
    assert_eq!(cfg.namenode_uri, "hdfs://namenode:8020");
}

#[test]
fn hfs_user_ranks_above_hadoop_user_name() {
    assert_eq!(env_user(Some("a".to_string()), Some("b".to_string())).as_deref(), Some("a"));
    assert_eq!(env_user(None, Some("b".to_string())).as_deref(), Some("b"));
    assert_eq!(env_user(None, None), None);
    let cfg = HdfsConfig::from_sources(None, vec![], vec![], None, None, None, Some("hadoop".to_string()), None);
    assert_eq!(cfg.effective_user(), "hadoop");
}
