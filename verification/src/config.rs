//! `HdfsConfig`: where the NameNode is, who the user is, and which backend to
//! use, and the rules by which each configuration source changes it.
//!
//! Sources by rising priority: built-in defaults, Hadoop XML files, a profile
//! `.env` file, environment variables, command-line flags. Reading the files
//! and the environment is the caller's work; this module decides what each
//! value read does to the configuration.
use vstd::prelude::*;
use crate::props::StringMap;
use crate::text::{
    opt_view,
    after_last, before_first, lines, lines_spec, string_views, concat2, concat3, contains, contains_seq, copy_str, has_prefix,
    parse_u16, parse_u16_spec, split_first, split_last, split_once, split_once_spec, starts_with,
    str_eq, strip_prefix_all, strip_prefix_repeated, trim_both, trim_char, trim_end, trim_end_char,
    trim_ws, Trim,
};
use crate::hadoop_xml::{parse_hadoop_xml, hadoop_xml_result};

verus! {

#[derive(Debug, Clone)]
pub struct HdfsConfig {
    /// NameNode URI, e.g. "hdfs://namenode.corp.com:8020"
    pub namenode_uri: String,
    /// HDFS user for non-Kerberos operations
    pub hdfs_user: Option<String>,
    /// Explicit WebHDFS URL, e.g. "http://namenode.corp.com:9870";
    /// when `None` it is derived from `namenode_uri`
    pub webhdfs_url: Option<String>,
    /// Kerberos principal (e.g. "user@CORP.COM")
    pub kerberos_principal: Option<String>,
    /// Keytab path for automatic kinit
    pub keytab_path: Option<String>,
    /// Connection timeout in seconds
    pub connect_timeout_secs: u64,
    /// Preferred backend: "rpc" | "webhdfs" | "auto"
    pub preferred_backend: String,
    /// Every property read from the Hadoop XML files
    pub raw_hadoop_props: StringMap,
}

/// The configuration with its strings taken as character sequences.
pub struct ConfigView {
    pub namenode_uri: Seq<char>,
    pub hdfs_user: Option<Seq<char>>,
    pub webhdfs_url: Option<Seq<char>>,
    pub kerberos_principal: Option<Seq<char>>,
    pub keytab_path: Option<Seq<char>>,
    pub connect_timeout_secs: u64,
    pub preferred_backend: Seq<char>,
    pub raw_hadoop_props: Map<Seq<char>, Seq<char>>,
}

impl View for HdfsConfig {
    type V = ConfigView;

    open spec fn view(&self) -> ConfigView {
        ConfigView {
            namenode_uri: self.namenode_uri@,
            hdfs_user: opt_view(self.hdfs_user),
            webhdfs_url: opt_view(self.webhdfs_url),
            kerberos_principal: opt_view(self.kerberos_principal),
            keytab_path: opt_view(self.keytab_path),
            connect_timeout_secs: self.connect_timeout_secs,
            preferred_backend: self.preferred_backend@,
            raw_hadoop_props: self.raw_hadoop_props@,
        }
    }
}

pub open spec fn default_config() -> ConfigView {
    ConfigView {
        namenode_uri: Seq::empty(),
        hdfs_user: None,
        webhdfs_url: None,
        kerberos_principal: None,
        keytab_path: None,
        connect_timeout_secs: 30,
        preferred_backend: "auto"@,
        raw_hadoop_props: Map::empty(),
    }
}

impl Default for HdfsConfig {
    fn default() -> (c: Self)
        ensures
            c@ == default_config(),
    {
        HdfsConfig {
            namenode_uri: String::new(),
            hdfs_user: None,
            webhdfs_url: None,
            kerberos_principal: None,
            keytab_path: None,
            connect_timeout_secs: 30,
            preferred_backend: copy_str("auto"),
            raw_hadoop_props: StringMap::new(),
        }
    }
}

/// A bare `host:port` whose port is a WebHDFS port (9870, or 50070 on Hadoop 2).
pub open spec fn has_webhdfs_port(nn: Seq<char>) -> bool {
    let port = parse_u16_spec(after_last(nn, ':'));
    port == Some(9870u16) || port == Some(50070u16)
}

/// What applying a NameNode string (from the command line or the environment) does.
pub open spec fn apply_namenode_spec(c: ConfigView, nn: Seq<char>) -> ConfigView {
    if has_prefix(nn, "http://"@) || has_prefix(nn, "https://"@) {
        ConfigView { webhdfs_url: Some(nn), ..c }
    } else if has_prefix(nn, "hdfs://"@) {
        ConfigView { namenode_uri: nn, ..c }
    } else if has_webhdfs_port(nn) {
        ConfigView { webhdfs_url: Some("http://"@ + nn), ..c }
    } else {
        ConfigView { namenode_uri: "hdfs://"@ + nn, ..c }
    }
}

/// The WebHDFS base URL that a configuration designates.
pub open spec fn effective_webhdfs_url_spec(webhdfs_url: Option<Seq<char>>, uri: Seq<char>) -> Seq<
    char,
> {
    match webhdfs_url {
        Some(url) => trim_end(url, Trim::Char('/')),
        None => if has_prefix(uri, "hdfs://"@) {
            "http://"@ + before_first(strip_prefix_all(uri, "hdfs://"@), ':') + ":9870"@
        } else if has_prefix(uri, "http://"@) || has_prefix(uri, "https://"@) {
            trim_end(uri, Trim::Char('/'))
        } else if uri.len() > 0 && !contains_seq(uri, "://"@) {
            "http://"@ + trim_end(uri, Trim::Char('/'))
        } else {
            "http://localhost:9870"@
        },
    }
}

/// `addr` with `scheme` put in front unless it already begins with `prefix`.
pub open spec fn with_scheme(addr: Seq<char>, prefix: Seq<char>, scheme: Seq<char>) -> Seq<char> {
    if has_prefix(addr, prefix) {
        addr
    } else {
        scheme + addr
    }
}

/// What the `dfs.namenode.*` properties held in the raw properties do.
pub open spec fn hdfs_site_spec(c: ConfigView) -> ConfigView {
    let props = c.raw_hadoop_props;
    let http = "dfs.namenode.http-address"@;
    let rpc = "dfs.namenode.rpc-address"@;
    let c1 = if c.webhdfs_url is None && props.contains_key(http) && props[http].len() > 0 {
        ConfigView { webhdfs_url: Some(with_scheme(props[http], "http"@, "http://"@)), ..c }
    } else {
        c
    };
    if c1.namenode_uri.len() == 0 && props.contains_key(rpc) && props[rpc].len() > 0 {
        ConfigView { namenode_uri: with_scheme(props[rpc], "hdfs://"@, "hdfs://"@), ..c1 }
    } else {
        c1
    }
}

/// What merging the properties of one Hadoop XML file does.
pub open spec fn core_site_spec(c: ConfigView, props: Map<Seq<char>, Seq<char>>) -> ConfigView {
    let fs = "fs.defaultFS"@;
    let legacy = "fs.default.name"@;
    let http = "dfs.namenode.http-address"@;
    let c1 = if props.contains_key(fs) {
        ConfigView { namenode_uri: props[fs], ..c }
    } else if props.contains_key(legacy) {
        ConfigView { namenode_uri: props[legacy], ..c }
    } else {
        c
    };
    let c2 = if props.contains_key(http) {
        ConfigView { webhdfs_url: Some(with_scheme(props[http], "http"@, "http://"@)), ..c1 }
    } else {
        c1
    };
    ConfigView { raw_hadoop_props: c2.raw_hadoop_props.union_prefer_right(props), ..c2 }
}

/// What one `KEY=VALUE` entry of a profile file does. The profile ranks above
/// the Hadoop XML files, so its NameNode replaces theirs; the user, the
/// backend and the Kerberos settings, which no lower source sets, keep the
/// first value that the profile gives.
pub open spec fn env_key_spec(c: ConfigView, key: Seq<char>, value: Seq<char>) -> ConfigView {
    if key == "HFS_NAMENODE"@ {
        apply_namenode_spec(c, value)
    } else if key == "HFS_USER"@ || key == "HADOOP_USER_NAME"@ {
        if c.hdfs_user is None {
            ConfigView { hdfs_user: Some(value), ..c }
        } else {
            c
        }
    } else if key == "HFS_BACKEND"@ {
        if c.preferred_backend == "auto"@ {
            ConfigView { preferred_backend: value, ..c }
        } else {
            c
        }
    } else if key == "HADOOP_CONF_DIR"@ {
        c
    } else if key == "KRB5_PRINCIPAL"@ {
        if c.kerberos_principal is None {
            ConfigView { kerberos_principal: Some(value), ..c }
        } else {
            c
        }
    } else if key == "KRB5_KEYTAB"@ {
        if c.keytab_path is None {
            ConfigView { keytab_path: Some(value), ..c }
        } else {
            c
        }
    } else {
        c
    }
}

/// The Hadoop configuration directory that an entry asks to load: only
/// `HADOOP_CONF_DIR`, and only while no Hadoop property has been read.
pub open spec fn env_key_conf_dir(c: ConfigView, key: Seq<char>, value: Seq<char>) -> Option<
    Seq<char>,
> {
    if key == "HFS_NAMENODE"@ || key == "HFS_USER"@ || key == "HADOOP_USER_NAME"@ || key
        == "HFS_BACKEND"@ {
        None
    } else if key == "HADOOP_CONF_DIR"@ && c.raw_hadoop_props == Map::<Seq<char>, Seq<char>>::empty() {
        Some(value)
    } else {
        None
    }
}

/// What merging the texts of the Hadoop XML files of a configuration
/// directory does, in order (`None` for a file that is absent): each text
/// that parses is merged, one that does not is skipped.
pub open spec fn conf_texts_spec(c: ConfigView, texts: Seq<Option<Seq<char>>>) -> ConfigView
    decreases texts.len(),
{
    if texts.len() == 0 {
        c
    } else {
        let before = conf_texts_spec(c, texts.drop_last());
        match texts.last() {
            Some(t) => match hadoop_xml_result(t) {
                Ok(props) => core_site_spec(before, props),
                Err(_) => before,
            },
            None => before,
        }
    }
}

/// The last step of loading: where no endpoint is configured, the endpoint is
/// WebHDFS on the local host.
pub open spec fn default_namenode_spec(c: ConfigView) -> ConfigView {
    if c.namenode_uri.len() == 0 && c.webhdfs_url is None {
        ConfigView { webhdfs_url: Some("http://localhost:9870"@), ..c }
    } else {
        c
    }
}

/// What the process environment does; it overrides every other source.
pub open spec fn env_override_spec(
    c: ConfigView,
    namenode: Option<Seq<char>>,
    user: Option<Seq<char>>,
    backend: Option<Seq<char>>,
) -> ConfigView {
    let c1 = match namenode {
        Some(nn) => apply_namenode_spec(c, nn),
        None => c,
    };
    let c2 = match user {
        Some(u) => ConfigView { hdfs_user: Some(u), ..c1 },
        None => c1,
    };
    match backend {
        Some(b) => ConfigView { preferred_backend: b, ..c2 },
        None => c2,
    }
}

/// An `hdfs://` NameNode string sets the RPC URI and nothing else.
pub proof fn lemma_apply_rpc_uri(c: ConfigView, nn: Seq<char>)
    requires
        has_prefix(nn, "hdfs://"@),
    ensures
        apply_namenode_spec(c, nn) == (ConfigView { namenode_uri: nn, ..c }),
{
    reveal_strlit("hdfs://");
    reveal_strlit("http://");
    reveal_strlit("https://");
    assert(nn.subrange(0, 7)[3] == nn[3]);
    if has_prefix(nn, "http://"@) {
        assert(nn.subrange(0, 7)[3] == 'p');
    }
    if has_prefix(nn, "https://"@) {
        assert(nn.subrange(0, 8)[3] == nn[3]);
        assert(nn.subrange(0, 8)[3] == 'p');
    }
}


/// The texts of the XML files of one Hadoop configuration directory.
pub open spec fn texts_view(files: Seq<Option<String>>) -> Seq<Option<Seq<char>>> {
    files.map_values(|f: Option<String>| opt_view(f))
}

/// What loading a Hadoop configuration directory with these file texts does.
pub open spec fn conf_dir_spec(c: ConfigView, texts: Seq<Option<Seq<char>>>) -> ConfigView {
    hdfs_site_spec(conf_texts_spec(c, texts))
}

/// The directories read for a profile, each with the texts of its files.
pub open spec fn dirs_view(dirs: Seq<(String, Vec<Option<String>>)>) -> Seq<(Seq<char>, Seq<Option<Seq<char>>>)> {
    dirs.map_values(|d: (String, Vec<Option<String>>)| (d.0@, texts_view(d.1@)))
}

/// The first of `dirs`, from `i` on, that is directory `d`.
pub open spec fn first_dir(dirs: Seq<(Seq<char>, Seq<Option<Seq<char>>>)>, d: Seq<char>, i: int) -> Option<int>
    decreases dirs.len() - i,
{
    if i < 0 || i >= dirs.len() {
        None
    } else if dirs[i].0 == d {
        Some(i)
    } else {
        first_dir(dirs, d, i + 1)
    }
}

/// What the entries of a profile file do, in order: each as `env_key_spec`
/// says, and one that asks for a Hadoop configuration directory loads the
/// texts read for that directory (a directory that was not read is skipped).
pub open spec fn profile_spec(
    c: ConfigView,
    entries: Seq<(Seq<char>, Seq<char>)>,
    dirs: Seq<(Seq<char>, Seq<Option<Seq<char>>>)>,
) -> ConfigView
    decreases entries.len(),
{
    if entries.len() == 0 {
        c
    } else {
        let before = profile_spec(c, entries.drop_last(), dirs);
        let k = entries.last().0;
        let v = entries.last().1;
        let after = env_key_spec(before, k, v);
        match env_key_conf_dir(before, k, v) {
            Some(d) => match first_dir(dirs, d, 0) {
                Some(j) => conf_dir_spec(after, dirs[j].1),
                None => after,
            },
            None => after,
        }
    }
}

/// The configuration that the sources give, each applied over the ones below
/// it: the defaults, the system Hadoop configuration directory, the profile,
/// the directory named by the environment's `HADOOP_CONF_DIR`, the
/// environment's NameNode, user and backend, and last the default endpoint.
pub open spec fn layers_spec(
    system: Option<Seq<Option<Seq<char>>>>,
    profile: Seq<(Seq<char>, Seq<char>)>,
    dirs: Seq<(Seq<char>, Seq<Option<Seq<char>>>)>,
    env_conf: Option<Seq<Option<Seq<char>>>>,
    namenode: Option<Seq<char>>,
    user: Option<Seq<char>>,
    backend: Option<Seq<char>>,
) -> ConfigView {
    let c1 = match system {
        Some(t) => conf_dir_spec(default_config(), t),
        None => default_config(),
    };
    let c2 = profile_spec(c1, profile, dirs);
    let c3 = match env_conf {
        Some(t) => conf_dir_spec(c2, t),
        None => c2,
    };
    default_namenode_spec(env_override_spec(c3, namenode, user, backend))
}

pub open spec fn opt_texts(t: Option<Vec<Option<String>>>) -> Option<Seq<Option<Seq<char>>>> {
    match t {
        Some(v) => Some(texts_view(v@)),
        None => None,
    }
}

/// One line of a profile file: blank lines and `#` comments are skipped, and a
/// `KEY=VALUE` line gives its trimmed key and its trimmed value without
/// surrounding `"` or `'` quotes.
pub open spec fn env_line_spec(line: Seq<char>) -> Option<(Seq<char>, Seq<char>)> {
    let t = trim_both(line, Trim::Whitespace);
    if t.len() == 0 || has_prefix(t, "#"@) {
        None
    } else {
        match split_once_spec(t, '=') {
            Some((k, v)) => Some(
                (
                    trim_both(k, Trim::Whitespace),
                    trim_both(
                        trim_both(trim_both(v, Trim::Whitespace), Trim::Char('"')),
                        Trim::Char('\''),
                    ),
                ),
            ),
            None => None,
        }
    }
}

/// The entries of a profile file, in order, from its lines.
pub open spec fn env_entries_spec(ls: Seq<Seq<char>>) -> Seq<(Seq<char>, Seq<char>)>
    decreases ls.len(),
{
    if ls.len() == 0 {
        Seq::empty()
    } else {
        let rest = env_entries_spec(ls.drop_last());
        match env_line_spec(ls.last()) {
            Some(e) => rest.push(e),
            None => rest,
        }
    }
}

pub open spec fn pair_views(v: Seq<(String, String)>) -> Seq<(Seq<char>, Seq<char>)> {
    v.map_values(|p: (String, String)| (p.0@, p.1@))
}

/// The `KEY=VALUE` entries of the text of a profile `.env` file.
pub fn env_file_entries(content: &str) -> (r: Vec<(String, String)>)
    ensures
        pair_views(r@) == env_entries_spec(lines_spec(content@)),
{
    let ls = lines(content);
    let ghost lv = string_views(ls@);
    let mut out: Vec<(String, String)> = Vec::new();
    let mut i: usize = 0;
    while i < ls.len()
        invariant
            i <= ls.len(),
            lv == string_views(ls@),
            lv == lines_spec(content@),
            pair_views(out@) == env_entries_spec(lv.take(i as int)),
        decreases ls.len() - i,
    {
        let e = parse_env_line(ls[i].as_str());
        proof {
            assert(lv.take(i + 1).drop_last() =~= lv.take(i as int));
            assert(lv[i as int] == ls@[i as int]@);
        }
        match e {
            Some(kv) => {
                proof {
                    assert(pair_views(out@.push(kv)) =~= pair_views(out@).push((kv.0@, kv.1@)));
                }
                out.push(kv);
            },
            None => {},
        }
        i += 1;
    }
    assert(lv.take(ls.len() as int) =~= lv);
    out
}

/// `addr`, or `scheme + addr` when `addr` does not begin with `prefix`.
fn with_scheme_exec(addr: &String, prefix: &str, scheme: &str) -> (r: String)
    ensures
        r@ == with_scheme(addr@, prefix@, scheme@),
{
    if starts_with(addr.as_str(), prefix) {
        addr.clone()
    } else {
        concat2(scheme, addr.as_str())
    }
}

/// Parse one line of a profile `.env` file.
pub fn parse_env_line(line: &str) -> (r: Option<(String, String)>)
    ensures
        match (r, env_line_spec(line@)) {
            (Some((k, v)), Some((sk, sv))) => k@ == sk && v@ == sv,
            (None, None) => true,
            _ => false,
        },
{
    let t = trim_ws(line);
    if t.as_str().is_empty() || starts_with(t.as_str(), "#") {
        return None;
    }
    match split_once(t.as_str(), '=') {
        Some((k, raw)) => {
            let key = trim_ws(k.as_str());
            let v1 = trim_ws(raw.as_str());
            let v2 = trim_char(v1.as_str(), '"');
            let value = trim_char(v2.as_str(), '\'');
            Some((key, value))
        },
        None => None,
    }
}

impl HdfsConfig {
    /// The HDFS user of the session: the configured one, else "hdfs", so that
    /// accounts without a local passwd entry work.
    pub fn effective_user(&self) -> (r: &str)
        ensures
            r@ == match self.hdfs_user {
                Some(u) => u@,
                None => "hdfs"@,
            },
    {
        match &self.hdfs_user {
            Some(u) => u.as_str(),
            None => "hdfs",
        }
    }

    /// Apply a NameNode string from the command line or the environment.
    /// `http://` and `https://` URLs set the WebHDFS URL, `hdfs://` URIs the
    /// NameNode URI; a bare `host:port` goes to WebHDFS on the ports 9870 and
    /// 50070, and otherwise becomes an `hdfs://` URI so that RPC is tried first.
    pub fn apply_namenode_str(&mut self, nn: &str)
        ensures
            final(self)@ == apply_namenode_spec(old(self)@, nn@),
    {
        if starts_with(nn, "http://") || starts_with(nn, "https://") {
            self.webhdfs_url = Some(copy_str(nn));
        } else if starts_with(nn, "hdfs://") {
            self.namenode_uri = copy_str(nn);
        } else {
            let tail = split_last(nn, ':');
            let port = parse_u16(tail.as_str());
            let web = match port {
                Some(p) => p == 9870 || p == 50070,
                None => false,
            };
            if web {
                self.webhdfs_url = Some(concat2("http://", nn));
            } else {
                self.namenode_uri = concat2("hdfs://", nn);
            }
        }
    }

    /// The WebHDFS base URL: the explicit one without trailing slashes, else
    /// derived from the NameNode URI (its host on port 9870 for `hdfs://`).
    pub fn effective_webhdfs_url(&self) -> (r: String)
        ensures
            r@ == effective_webhdfs_url_spec(opt_view(self.webhdfs_url), self.namenode_uri@),
    {
        if let Some(url) = &self.webhdfs_url {
            return trim_end_char(url.as_str(), '/');
        }
        let uri = self.namenode_uri.as_str();
        if starts_with(uri, "hdfs://") {
            let host_port = strip_prefix_repeated(uri, "hdfs://");
            let host = split_first(host_port.as_str(), ':');
            return concat3("http://", host.as_str(), ":9870");
        }
        if starts_with(uri, "http://") || starts_with(uri, "https://") {
            return trim_end_char(uri, '/');
        }
        if !uri.is_empty() && !contains(uri, "://") {
            let trimmed = trim_end_char(uri, '/');
            return concat2("http://", trimmed.as_str());
        }
        copy_str("http://localhost:9870")
    }

    /// Apply the `dfs.namenode.http-address` and `dfs.namenode.rpc-address`
    /// properties, each only where the value it sets is still unset.
    pub fn apply_hdfs_site_props(&mut self)
        ensures
            final(self)@ == hdfs_site_spec(old(self)@),
    {
        if self.webhdfs_url.is_none() {
            if let Some(addr) = self.raw_hadoop_props.get("dfs.namenode.http-address") {
                if !addr.as_str().is_empty() {
                    let url = with_scheme_exec(addr, "http", "http://");
                    self.webhdfs_url = Some(url);
                }
            }
        }
        if self.namenode_uri.as_str().is_empty() {
            if let Some(addr) = self.raw_hadoop_props.get("dfs.namenode.rpc-address") {
                if !addr.as_str().is_empty() {
                    let uri = with_scheme_exec(addr, "hdfs://", "hdfs://");
                    self.namenode_uri = uri;
                }
            }
        }
    }

    /// Merge the properties of one Hadoop XML file: `fs.defaultFS` (or the
    /// legacy `fs.default.name`) sets the NameNode URI and
    /// `dfs.namenode.http-address` the WebHDFS URL; all are kept as raw properties.
    pub fn merge_core_site_props(&mut self, props: StringMap)
        ensures
            final(self)@ == core_site_spec(old(self)@, props@),
    {
        let nn = match props.get("fs.defaultFS") {
            Some(v) => Some(v.clone()),
            None => match props.get("fs.default.name") {
                Some(v) => Some(v.clone()),
                None => None,
            },
        };
        if let Some(v) = nn {
            self.namenode_uri = v;
        }
        if let Some(v) = props.get("dfs.namenode.http-address") {
            let url = with_scheme_exec(v, "http", "http://");
            self.webhdfs_url = Some(url);
        }
        self.raw_hadoop_props.extend(props);
    }

    /// Parse the text of a Hadoop XML file and merge its properties. On a
    /// parse error the configuration is unchanged and the message returned.
    pub fn merge_core_site_xml(&mut self, xml: &str) -> (r: Result<(), String>)
        ensures
            match hadoop_xml_result(xml@) {
                Ok(props) => r is Ok && final(self)@ == core_site_spec(old(self)@, props),
                Err(msg) => r matches Err(m) && m@ == msg && final(self)@ == old(self)@,
            },
    {
        match parse_hadoop_xml(xml) {
            Ok(props) => {
                self.merge_core_site_props(props);
                Ok(())
            },
            Err(e) => Err(e),
        }
    }

    /// Load a Hadoop configuration directory from the texts of its XML files
    /// (`core-site.xml`, `hdfs-site.xml`, `mapred-site.xml`, `yarn-site.xml`,
    /// `None` where a file is absent): each is merged in order, a later value
    /// replacing an earlier one, and a file that does not parse is skipped;
    /// then the `dfs.namenode.*` addresses they hold are applied.
    pub fn load_hadoop_conf_dir(&mut self, files: &Vec<Option<String>>)
        ensures
            final(self)@ == hdfs_site_spec(
                conf_texts_spec(old(self)@, files@.map_values(|f: Option<String>| opt_view(f))),
            ),
    {
        let ghost start = self@;
        let ghost texts = files@.map_values(|f: Option<String>| opt_view(f));
        let mut i: usize = 0;
        while i < files.len()
            invariant
                i <= files@.len(),
                texts == files@.map_values(|f: Option<String>| opt_view(f)),
                self@ == conf_texts_spec(start, texts.take(i as int)),
            decreases files@.len() - i,
        {
            proof {
                assert(texts.take(i + 1).drop_last() =~= texts.take(i as int));
            }
            match &files[i] {
                Some(xml) => {
                    let _ = self.merge_core_site_xml(xml.as_str());
                },
                None => {},
            }
            i += 1;
        }
        assert(texts.take(files@.len() as int) =~= texts);
        self.apply_hdfs_site_props();
    }

    /// Apply one `KEY=VALUE` entry of a profile file. Returns the Hadoop
    /// configuration directory that the caller must then load, when the
    /// entry is `HADOOP_CONF_DIR` and no Hadoop property has been read yet.
    pub fn apply_env_key(&mut self, key: &str, value: &str) -> (load_dir: Option<String>)
        ensures
            final(self)@ == env_key_spec(old(self)@, key@, value@),
            opt_view(load_dir) == env_key_conf_dir(old(self)@, key@, value@),
    {
        if str_eq(key, "HFS_NAMENODE") {
            self.apply_namenode_str(value);
        } else if str_eq(key, "HFS_USER") || str_eq(key, "HADOOP_USER_NAME") {
            if self.hdfs_user.is_none() {
                self.hdfs_user = Some(copy_str(value));
            }
        } else if str_eq(key, "HFS_BACKEND") {
            if str_eq(self.preferred_backend.as_str(), "auto") {
                self.preferred_backend = copy_str(value);
            }
        } else if str_eq(key, "HADOOP_CONF_DIR") {
            if self.raw_hadoop_props.is_empty() {
                return Some(copy_str(value));
            }
        } else if str_eq(key, "KRB5_PRINCIPAL") {
            if self.kerberos_principal.is_none() {
                self.kerberos_principal = Some(copy_str(value));
            }
        } else if str_eq(key, "KRB5_KEYTAB") {
            if self.keytab_path.is_none() {
                self.keytab_path = Some(copy_str(value));
            }
        }
        None
    }

    /// Apply the values of the process environment (`HFS_NAMENODE`,
    /// `HFS_USER` or `HADOOP_USER_NAME`, `HFS_BACKEND`), which override
    /// every lower-priority source.
    pub fn merge_env_overrides(
        &mut self,
        namenode: Option<&str>,
        user: Option<String>,
        backend: Option<String>,
    )
        ensures
            final(self)@ == env_override_spec(
                old(self)@,
                match namenode {
                    Some(n) => Some(n@),
                    None => None,
                },
                opt_view(user),
                opt_view(backend),
            ),
    {
        if let Some(nn) = namenode {
            self.apply_namenode_str(nn);
        }
        if let Some(u) = user {
            self.hdfs_user = Some(u);
        }
        if let Some(b) = backend {
            self.preferred_backend = b;
        }
    }

    /// The last step of loading: with neither a NameNode URI nor a WebHDFS URL
    /// configured, the endpoint defaults to WebHDFS at `http://localhost:9870`.
    pub fn apply_default_namenode(&mut self)
        ensures
            final(self)@ == default_namenode_spec(old(self)@),
    {
        if self.namenode_uri.as_str().is_empty() && self.webhdfs_url.is_none() {
            self.webhdfs_url = Some(copy_str("http://localhost:9870"));
        }
    }
}


/// The user that the environment names: `HFS_USER`, else `HADOOP_USER_NAME`.
pub fn env_user(hfs_user: Option<String>, hadoop_user_name: Option<String>) -> (r: Option<String>)
    ensures
        opt_view(r) == match opt_view(hfs_user) {
            Some(u) => Some(u),
            None => opt_view(hadoop_user_name),
        },
{
    match hfs_user {
        Some(u) => Some(u),
        None => hadoop_user_name,
    }
}

fn find_dir(dirs: &Vec<(String, Vec<Option<String>>)>, d: &str) -> (r: Option<usize>)
    ensures
        match r {
            Some(j) => first_dir(dirs_view(dirs@), d@, 0) == Some(j as int) && j < dirs@.len(),
            None => first_dir(dirs_view(dirs@), d@, 0) is None,
        },
{
    let ghost dv = dirs_view(dirs@);
    let mut i: usize = 0;
    while i < dirs.len()
        invariant
            i <= dirs@.len(),
            dv == dirs_view(dirs@),
            first_dir(dv, d@, i as int) == first_dir(dv, d@, 0),
        decreases dirs.len() - i,
    {
        if str_eq(dirs[i].0.as_str(), d) {
            return Some(i);
        }
        i += 1;
    }
    None
}

impl HdfsConfig {
    /// The configuration that all sources give, in priority order, from the
    /// values read out of them: the texts of the system Hadoop configuration
    /// directory (`None` where there is none), the entries of the profile
    /// file, the texts of each directory that a profile entry names, the
    /// texts of the directory named by the environment's `HADOOP_CONF_DIR`,
    /// and the environment's `HFS_NAMENODE`, `HFS_USER`, `HADOOP_USER_NAME`
    /// and `HFS_BACKEND`. The environment ranks above every file: its
    /// NameNode, user and backend are the result's; and the result always
    /// has an endpoint.
    pub fn from_sources(
        system: Option<Vec<Option<String>>>,
        profile: Vec<(String, String)>,
        profile_dirs: Vec<(String, Vec<Option<String>>)>,
        env_conf: Option<Vec<Option<String>>>,
        env_namenode: Option<String>,
        env_hfs_user: Option<String>,
        env_hadoop_user: Option<String>,
        env_backend: Option<String>,
    ) -> (c: HdfsConfig)
        ensures
            c@ == layers_spec(
                opt_texts(system),
                pair_views(profile@),
                dirs_view(profile_dirs@),
                opt_texts(env_conf),
                opt_view(env_namenode),
                match opt_view(env_hfs_user) {
                    Some(u) => Some(u),
                    None => opt_view(env_hadoop_user),
                },
                opt_view(env_backend),
            ),
            match opt_view(env_namenode) {
                Some(v) => has_prefix(v, "hdfs://"@) ==> c@.namenode_uri == v,
                None => true,
            },
            match opt_view(env_namenode) {
                Some(v) => (has_prefix(v, "http://"@) || has_prefix(v, "https://"@)) ==> c@.webhdfs_url == Some(
                    v,
                ),
                None => true,
            },
            match opt_view(env_hfs_user) {
                Some(u) => c@.hdfs_user == Some(u),
                None => match opt_view(env_hadoop_user) {
                    Some(u) => c@.hdfs_user == Some(u),
                    None => true,
                },
            },
            match opt_view(env_backend) {
                Some(b) => c@.preferred_backend == b,
                None => true,
            },
            c@.namenode_uri.len() == 0 ==> c@.webhdfs_url is Some,
    {
        let mut c = HdfsConfig::default();
        let ghost c0 = c@;
        match &system {
            Some(t) => {
                c.load_hadoop_conf_dir(t);
                assert(texts_view(t@) =~= t@.map_values(|f: Option<String>| opt_view(f)));
            },
            None => {},
        }
        let ghost c1 = c@;
        let ghost pv = pair_views(profile@);
        let ghost dv = dirs_view(profile_dirs@);
        let mut i: usize = 0;
        assert(pv.take(0) =~= Seq::<(Seq<char>, Seq<char>)>::empty());
        while i < profile.len()
            invariant
                i <= profile@.len(),
                pv == pair_views(profile@),
                dv == dirs_view(profile_dirs@),
                c@ == profile_spec(c1, pv.take(i as int), dv),
            decreases profile.len() - i,
        {
            let k = profile[i].0.as_str();
            let v = profile[i].1.as_str();
            let ghost before = c@;
            proof {
                assert(pv.take(i + 1).drop_last() =~= pv.take(i as int));
                assert(pv.take(i + 1).last() == pv[i as int]);
            }
            let load = c.apply_env_key(k, v);
            match load {
                Some(dir) => match find_dir(&profile_dirs, dir.as_str()) {
                    Some(j) => {
                        c.load_hadoop_conf_dir(&profile_dirs[j].1);
                        proof {
                            assert(dv[j as int].1 =~= profile_dirs@[j as int].1@.map_values(
                                |f: Option<String>| opt_view(f),
                            ));
                        }
                    },
                    None => {},
                },
                None => {},
            }
            i += 1;
        }
        assert(pv.take(profile@.len() as int) =~= pv);
        match &env_conf {
            Some(t) => {
                c.load_hadoop_conf_dir(t);
                assert(texts_view(t@) =~= t@.map_values(|f: Option<String>| opt_view(f)));
            },
            None => {},
        }
        let user = env_user(env_hfs_user, env_hadoop_user);
        let nn = match &env_namenode {
            Some(s) => Some(s.as_str()),
            None => None,
        };
        let ghost c3 = c@;
        c.merge_env_overrides(nn, user, env_backend);
        proof {
            reveal_strlit("hdfs://");
            if let Some(v) = opt_view(env_namenode) {
                if has_prefix(v, "hdfs://"@) {
                    lemma_apply_rpc_uri(c3, v);
                    assert(v.len() >= 7);
                }
            }
        }
        c.apply_default_namenode();
        c
    }
}

} // verus!
