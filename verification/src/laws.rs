//! Properties that hold across the library's operations, proved over the
//! specifications that the operations' contracts use.
use vstd::prelude::*;
use crate::config::{
    ConfigView, apply_namenode_spec, core_site_spec, default_namenode_spec, effective_webhdfs_url_spec,
    env_key_conf_dir, env_key_spec, env_override_spec, has_webhdfs_port, lemma_apply_rpc_uri,
};
use crate::hadoop_xml::{CollectorView, XmlEventView, collector_step};
use crate::parquet::{
    ConvertedType, LogicalType, PhysicalType, le4, le8, primitive_type_spec, stat_text_spec, twos_complement,
};
use crate::client::FileStatus;
use crate::webhdfs::{
    WFileStatus, backoff_next, batch_appended, child_path_spec, file_status_spec, normalize_path_spec,
};
use vstd::arithmetic::power2::{lemma2_to64, lemma2_to64_rest, lemma_pow2_adds, pow2};
use crate::schema::{
    DiffView, FieldTypeView, FieldView, added_changed_spec, changes_spec, compatible_change_spec,
    first_named, is_breaking, no_breaking, removed_spec,
};
use crate::text::{
    after_last, all_digits, before_first, has_prefix, is_digit, lemma_before_first_at,
    parse_u16_spec, signed_decimal, strip_prefix_all, trim_both, trim_end, Trim,
};

verus! {

// ─── Configuration ──────────────────────────────────────────────────────────

/// The environment overrides the Hadoop XML files: whatever a file set,
/// `HFS_USER` and `HFS_BACKEND` from the environment are the user and the
/// backend, and an `http(s)://` `HFS_NAMENODE` is the WebHDFS URL.
pub proof fn law_environment_overrides_files(
    c: ConfigView,
    props: Map<Seq<char>, Seq<char>>,
    nn: Seq<char>,
    user: Seq<char>,
    backend: Seq<char>,
)
    ensures
        ({
            let r = env_override_spec(core_site_spec(c, props), Some(nn), Some(user), Some(backend));
            &&& r.hdfs_user == Some(user)
            &&& r.preferred_backend == backend
            &&& (has_prefix(nn, "http://"@) || has_prefix(nn, "https://"@)) ==> r.webhdfs_url == Some(nn)
            &&& has_prefix(nn, "hdfs://"@) ==> r.namenode_uri == nn
        }),
{
    reveal_strlit("hdfs://");
    reveal_strlit("http://");
    reveal_strlit("https://");
    if has_prefix(nn, "hdfs://"@) {
        assert(nn.subrange(0, 7)[3] == nn[3]);
        assert(nn[3] == 's');
        if has_prefix(nn, "http://"@) {
            assert(nn.subrange(0, 7)[3] == 'p');
        }
        if has_prefix(nn, "https://"@) {
            assert(nn.subrange(0, 8)[3] == nn[3]);
            assert(nn.subrange(0, 8)[3] == 'p');
        }
    }
}

/// A profile `.env` file ranks above the Hadoop XML files: its NameNode
/// replaces the one that the files set, exactly as the same value from the
/// environment would. A user, a backend other than `auto`, a Kerberos
/// principal or keytab set earlier stays as it was, and no entry changes the
/// Hadoop properties read so far.
pub proof fn law_profile_keeps_set_values(c: ConfigView, key: Seq<char>, value: Seq<char>)
    ensures
        ({
            let r = env_key_spec(c, key, value);
            &&& key == "HFS_NAMENODE"@ ==> r == apply_namenode_spec(c, value)
            &&& c.hdfs_user is Some ==> r.hdfs_user == c.hdfs_user
            &&& c.preferred_backend != "auto"@ ==> r.preferred_backend == c.preferred_backend
            &&& c.kerberos_principal is Some ==> r.kerberos_principal == c.kerberos_principal
            &&& c.keytab_path is Some ==> r.keytab_path == c.keytab_path
            &&& r.raw_hadoop_props == c.raw_hadoop_props
        }),
{
}

/// Whatever the system Hadoop files set, a profile `HFS_NAMENODE` decides the
/// NameNode: the profile's value read after the files is the value itself
/// for an `hdfs://` URI and the WebHDFS URL for an `http(s)://` one.
pub proof fn law_profile_overrides_files(
    c: ConfigView,
    props: Map<Seq<char>, Seq<char>>,
    nn: Seq<char>,
)
    ensures
        ({
            let r = env_key_spec(core_site_spec(c, props), "HFS_NAMENODE"@, nn);
            &&& (has_prefix(nn, "http://"@) || has_prefix(nn, "https://"@)) ==> r.webhdfs_url == Some(nn)
            &&& has_prefix(nn, "hdfs://"@) ==> r.namenode_uri == nn
        }),
{
    if has_prefix(nn, "hdfs://"@) {
        lemma_apply_rpc_uri(core_site_spec(c, props), nn);
    }
}

/// The NameNode URI follows the priority chain, from highest to lowest: the
/// command line, the environment, the profile, the Hadoop XML files, and
/// the configuration before them. Each source is given as an `hdfs://` URI
/// or as absent, and loading applies them from the lowest up.
pub proof fn law_namenode_priority(
    c: ConfigView,
    props: Map<Seq<char>, Seq<char>>,
    profile: Option<Seq<char>>,
    env: Option<Seq<char>>,
    cli: Option<Seq<char>>,
)
    requires
        profile matches Some(v) ==> has_prefix(v, "hdfs://"@),
        env matches Some(v) ==> has_prefix(v, "hdfs://"@),
        cli matches Some(v) ==> has_prefix(v, "hdfs://"@),
    ensures
        ({
            let files = core_site_spec(c, props);
            let p = match profile {
                Some(v) => env_key_spec(files, "HFS_NAMENODE"@, v),
                None => files,
            };
            let loaded = default_namenode_spec(env_override_spec(p, env, None, None));
            let r = match cli {
                Some(v) => apply_namenode_spec(loaded, v),
                None => loaded,
            };
            r.namenode_uri == match cli {
                Some(v) => v,
                None => match env {
                    Some(v) => v,
                    None => match profile {
                        Some(v) => v,
                        None => files.namenode_uri,
                    },
                },
            }
        }),
{
    let files = core_site_spec(c, props);
    if let Some(v) = profile {
        lemma_apply_rpc_uri(files, v);
    }
    let p = match profile {
        Some(v) => env_key_spec(files, "HFS_NAMENODE"@, v),
        None => files,
    };
    if let Some(v) = env {
        lemma_apply_rpc_uri(p, v);
    }
    let loaded = default_namenode_spec(env_override_spec(p, env, None, None));
    if let Some(v) = cli {
        lemma_apply_rpc_uri(loaded, v);
    }
}

/// Applying the same NameNode string twice is applying it once.
pub proof fn law_apply_namenode_idempotent(c: ConfigView, nn: Seq<char>)
    ensures
        apply_namenode_spec(apply_namenode_spec(c, nn), nn) == apply_namenode_spec(c, nn),
{
}

proof fn lemma_after_last_suffix(s: Seq<char>, c: char)
    requires
        after_last(s, c).len() > 0,
    ensures
        s.len() > 0,
        after_last(s, c).last() == s.last(),
    decreases s.len(),
{
    if s.len() > 0 && s.last() != c {
        let t = after_last(s.drop_last(), c);
        assert(after_last(s, c) == t.push(s.last()));
    }
}

proof fn lemma_port_ends_in_digit(nn: Seq<char>)
    requires
        has_webhdfs_port(nn),
    ensures
        nn.len() > 0,
        is_digit(nn.last()),
{
    let tail = after_last(nn, ':');
    let d = if tail.len() > 1 && tail[0] == '+' { tail.drop_first() } else { tail };
    assert(parse_u16_spec(tail) is Some);
    assert(d.len() > 0 && all_digits(d));
    assert(is_digit(d[d.len() - 1]));
    assert(tail.len() > 0);
    assert(d.last() == tail.last());
    lemma_after_last_suffix(nn, ':');
}

/// A bare `host:port` with a WebHDFS port (9870, or 50070 on Hadoop 2) makes
/// `http://host:port` the WebHDFS URL; with any other port it becomes the RPC
/// URI `hdfs://host:port`, and where no WebHDFS URL is set the WebHDFS URL is
/// `http://host:9870`.
pub proof fn law_bare_namenode_routing(c: ConfigView, nn: Seq<char>)
    requires
        !has_prefix(nn, "http://"@),
        !has_prefix(nn, "https://"@),
        !has_prefix(nn, "hdfs://"@),
    ensures
        ({
            let r = apply_namenode_spec(c, nn);
            &&& has_webhdfs_port(nn) ==> effective_webhdfs_url_spec(r.webhdfs_url, r.namenode_uri)
                == "http://"@ + nn
            &&& !has_webhdfs_port(nn) ==> r.namenode_uri == "hdfs://"@ + nn
            &&& (!has_webhdfs_port(nn) && c.webhdfs_url is None) ==> effective_webhdfs_url_spec(
                r.webhdfs_url,
                r.namenode_uri,
            ) == "http://"@ + before_first(nn, ':') + ":9870"@
        }),
{
    if has_webhdfs_port(nn) {
        lemma_port_ends_in_digit(nn);
        let url = "http://"@ + nn;
        assert(url.last() == nn.last());
        assert(url.len() > 0);
        assert(trim_end(url, Trim::Char('/')) == url);
    } else {
        reveal_strlit("hdfs://");
        let uri = "hdfs://"@ + nn;
        assert(uri.subrange(0, 7) =~= "hdfs://"@);
        assert(has_prefix(uri, "hdfs://"@));
        assert(uri.skip(7) =~= nn);
        assert(strip_prefix_all(uri, "hdfs://"@) == strip_prefix_all(nn, "hdfs://"@));
        assert(strip_prefix_all(nn, "hdfs://"@) == nn);
    }
}

/// Where no source configured a NameNode or a WebHDFS URL, loading ends
/// with WebHDFS at `http://localhost:9870` and no RPC URI, so the automatic
/// choice goes to WebHDFS without probing RPC.
pub proof fn law_default_endpoints(c: ConfigView)
    requires
        c.namenode_uri.len() == 0,
        c.webhdfs_url is None,
    ensures
        !has_prefix(default_namenode_spec(c).namenode_uri, "hdfs://"@),
        effective_webhdfs_url_spec(
            default_namenode_spec(c).webhdfs_url,
            default_namenode_spec(c).namenode_uri,
        ) == "http://localhost:9870"@,
{
    reveal_strlit("http://localhost:9870");
    reveal_strlit("hdfs://");
    let url = "http://localhost:9870"@;
    assert(url.last() == '0');
    assert(trim_end(url, Trim::Char('/')) == url);
}

// ─── Schema comparison ──────────────────────────────────────────────────────

pub open spec fn distinct_names(fs: Seq<FieldView>) -> bool {
    forall|i: int, j: int| 0 <= i < j < fs.len() ==> fs[i].name != fs[j].name
}

proof fn lemma_first_named_found(fs: Seq<FieldView>, i: int)
    requires
        0 <= i < fs.len(),
        distinct_names(fs),
    ensures
        first_named(fs, fs[i].name) == Some(fs[i]),
    decreases fs.len(),
{
    if i > 0 {
        assert(fs[0].name != fs[i].name);
        let rest = fs.drop_first();
        assert(rest[i - 1] == fs[i]);
        assert(distinct_names(rest)) by {
            assert forall|a: int, b: int| 0 <= a < b < rest.len() implies rest[a].name
                != rest[b].name by {
                assert(rest[a] == fs[a + 1] && rest[b] == fs[b + 1]);
            }
        }
        lemma_first_named_found(rest, i - 1);
    }
}

proof fn lemma_first_named_none(fs: Seq<FieldView>, n: Seq<char>)
    requires
        forall|i: int| 0 <= i < fs.len() ==> fs[i].name != n,
    ensures
        first_named(fs, n) is None,
    decreases fs.len(),
{
    if fs.len() > 0 {
        let rest = fs.drop_first();
        assert forall|i: int| 0 <= i < rest.len() implies rest[i].name != n by {
            assert(rest[i] == fs[i + 1]);
        }
        lemma_first_named_none(rest, n);
    }
}

proof fn lemma_first_named_some(fs: Seq<FieldView>, i: int)
    requires
        0 <= i < fs.len(),
    ensures
        first_named(fs, fs[i].name) is Some,
    decreases fs.len(),
{
    if i > 0 && fs[0].name != fs[i].name {
        assert(fs.drop_first()[i - 1] == fs[i]);
        lemma_first_named_some(fs.drop_first(), i - 1);
    }
}

proof fn lemma_removed_none(a: Seq<FieldView>, b: Seq<FieldView>)
    requires
        forall|i: int| 0 <= i < a.len() ==> first_named(b, #[trigger] a[i].name) is Some,
    ensures
        removed_spec(a, b) == Seq::<DiffView>::empty(),
    decreases a.len(),
{
    if a.len() > 0 {
        assert(a.drop_last().len() == a.len() - 1);
        assert forall|i: int| 0 <= i < a.drop_last().len() implies first_named(
            b,
            #[trigger] a.drop_last()[i].name,
        ) is Some by {
            assert(a.drop_last()[i] == a[i]);
        }
        lemma_removed_none(a.drop_last(), b);
        assert(first_named(b, a[a.len() - 1].name) is Some);
    }
}

proof fn lemma_added_changed_self(a: Seq<FieldView>, k: int)
    requires
        distinct_names(a),
        0 <= k <= a.len(),
    ensures
        added_changed_spec(a, a.take(k)) == Seq::<DiffView>::empty(),
    decreases k,
{
    if k > 0 {
        assert(a.take(k).drop_last() =~= a.take(k - 1));
        assert(a.take(k).last() == a[k - 1]);
        lemma_first_named_found(a, k - 1);
        lemma_added_changed_self(a, k - 1);
    }
}

/// Comparing a schema whose field names are distinct with itself finds no
/// change at all, so the comparison is compatible.
pub proof fn law_compare_with_itself(a: Seq<FieldView>)
    requires
        distinct_names(a),
    ensures
        changes_spec(a, a) == Seq::<DiffView>::empty(),
        no_breaking(changes_spec(a, a)),
{
    assert forall|i: int| 0 <= i < a.len() implies first_named(a, #[trigger] a[i].name) is Some by {
        lemma_first_named_some(a, i);
    }
    lemma_removed_none(a, a);
    lemma_added_changed_self(a, a.len() as int);
    assert(a.take(a.len() as int) =~= a);
    assert(Seq::<DiffView>::empty() + Seq::<DiffView>::empty() =~= Seq::<DiffView>::empty());
}

proof fn lemma_removed_has(a: Seq<FieldView>, b: Seq<FieldView>, i: int)
    requires
        0 <= i < a.len(),
        first_named(b, a[i].name) is None,
    ensures
        exists|j: int| 0 <= j < removed_spec(a, b).len() && #[trigger] removed_spec(a, b)[j] is Removed,
    decreases a.len(),
{
    let rest = removed_spec(a.drop_last(), b);
    if i == a.len() - 1 {
        assert(removed_spec(a, b) == rest.push(DiffView::Removed { field: a.last() }));
        assert(removed_spec(a, b)[rest.len() as int] is Removed);
    } else {
        assert(a.drop_last()[i] == a[i]);
        lemma_removed_has(a.drop_last(), b, i);
        let j = choose|j: int| 0 <= j < rest.len() && #[trigger] rest[j] is Removed;
        if first_named(b, a.last().name) is None {
            assert(removed_spec(a, b)[j] == rest[j]);
        }
        assert(removed_spec(a, b)[j] is Removed);
    }
}

/// A schema that loses a field is not compatible with the one before.
pub proof fn law_losing_a_field_breaks(a: Seq<FieldView>, b: Seq<FieldView>, i: int)
    requires
        0 <= i < a.len(),
        forall|j: int| 0 <= j < b.len() ==> b[j].name != a[i].name,
    ensures
        !no_breaking(changes_spec(a, b)),
{
    lemma_first_named_none(b, a[i].name);
    lemma_removed_has(a, b, i);
    let r = removed_spec(a, b);
    let j = choose|j: int| 0 <= j < r.len() && #[trigger] r[j] is Removed;
    assert(changes_spec(a, b)[j] == r[j]);
    assert(is_breaking(changes_spec(a, b)[j]));
}

proof fn lemma_added_only(a: Seq<FieldView>, extra: Seq<FieldView>, k: int)
    requires
        distinct_names(a),
        forall|i: int, j: int| 0 <= i < a.len() && 0 <= j < extra.len() ==> a[i].name != extra[j].name,
        0 <= k <= a.len() + extra.len(),
    ensures
        forall|d: int| 0 <= d < added_changed_spec(a, (a + extra).take(k)).len() ==> (#[trigger] added_changed_spec(
            a,
            (a + extra).take(k),
        )[d]) is Added,
    decreases k,
{
    let b = a + extra;
    if k > 0 {
        assert(b.take(k).drop_last() =~= b.take(k - 1));
        lemma_added_only(a, extra, k - 1);
        let rest = added_changed_spec(a, b.take(k - 1));
        let fb = b[k - 1];
        assert(b.take(k).last() == fb);
        if k - 1 < a.len() {
            assert(fb == a[k - 1]);
            lemma_first_named_found(a, k - 1);
            assert(added_changed_spec(a, b.take(k)) == rest);
        } else {
            assert(fb == extra[k - 1 - a.len()]);
            assert forall|i: int| 0 <= i < a.len() implies a[i].name != fb.name by {}
            lemma_first_named_none(a, fb.name);
            assert(added_changed_spec(a, b.take(k)) == rest.push(DiffView::Added { field: fb }));
        }
    }
}

/// Appending fields with new names to a schema whose names are distinct is
/// a compatible change: every difference is an addition.
pub proof fn law_adding_fields_is_compatible(a: Seq<FieldView>, extra: Seq<FieldView>)
    requires
        distinct_names(a),
        forall|i: int, j: int| 0 <= i < a.len() && 0 <= j < extra.len() ==> a[i].name != extra[j].name,
    ensures
        forall|d: int| 0 <= d < changes_spec(a, a + extra).len() ==> (#[trigger] changes_spec(a, a + extra)[d]) is Added,
        no_breaking(changes_spec(a, a + extra)),
{
    let b = a + extra;
    assert forall|i: int| 0 <= i < a.len() implies first_named(b, #[trigger] a[i].name) is Some by {
        assert(b[i] == a[i]);
        lemma_first_named_some(b, i);
    }
    lemma_removed_none(a, b);
    lemma_added_only(a, extra, b.len() as int);
    assert(b.take(b.len() as int) =~= b);
    assert(changes_spec(a, b) =~= added_changed_spec(a, b));
}

/// How many times `x` occurs in `s`.
pub open spec fn occurrences(s: Seq<DiffView>, x: DiffView) -> nat
    decreases s.len(),
{
    if s.len() == 0 {
        0
    } else {
        occurrences(s.drop_last(), x) + if s.last() == x { 1nat } else { 0nat }
    }
}

/// Some field of `fs` is named `n`.
pub open spec fn has_name(fs: Seq<FieldView>, n: Seq<char>) -> bool {
    exists|j: int| 0 <= j < fs.len() && fs[j].name == n
}

/// `b` holds a field named `n` of type `to`, the first field of `a` named `n`
/// has type `from`, the two types differ, and `breaking` says whether the
/// change is not a widening.
pub open spec fn type_changed(
    a: Seq<FieldView>,
    b: Seq<FieldView>,
    n: Seq<char>,
    from: FieldTypeView,
    to: FieldTypeView,
    breaking: bool,
) -> bool {
    &&& exists|j: int| 0 <= j < b.len() && b[j].name == n && b[j].field_type == to
    &&& first_named(a, n) is Some
    &&& first_named(a, n)->0.field_type == from
    &&& from != to
    &&& breaking == !compatible_change_spec(from, to)
}

proof fn lemma_occurrences_concat(s: Seq<DiffView>, t: Seq<DiffView>, x: DiffView)
    ensures
        occurrences(s + t, x) == occurrences(s, x) + occurrences(t, x),
    decreases t.len(),
{
    if t.len() == 0 {
        assert(s + t =~= s);
    } else {
        assert((s + t).drop_last() =~= s + t.drop_last());
        assert((s + t).last() == t.last());
        lemma_occurrences_concat(s, t.drop_last(), x);
    }
}

proof fn lemma_occurrences_push(s: Seq<DiffView>, d: DiffView, x: DiffView)
    ensures
        occurrences(s.push(d), x) == occurrences(s, x) + if d == x { 1nat } else { 0nat },
{
    assert(s.push(d).drop_last() =~= s);
}

proof fn lemma_has_name_first_named(fs: Seq<FieldView>, n: Seq<char>)
    ensures
        has_name(fs, n) <==> first_named(fs, n) is Some,
{
    if has_name(fs, n) {
        let j = choose|j: int| 0 <= j < fs.len() && fs[j].name == n;
        lemma_first_named_some(fs, j);
    } else {
        lemma_first_named_none(fs, n);
    }
}

proof fn lemma_distinct_drop_last(fs: Seq<FieldView>)
    requires
        distinct_names(fs),
        fs.len() > 0,
    ensures
        distinct_names(fs.drop_last()),
        forall|i: int| 0 <= i < fs.len() - 1 ==> #[trigger] fs[i].name != fs.last().name,
{
    assert forall|i: int, j: int| 0 <= i < j < fs.drop_last().len() implies fs.drop_last()[i].name
        != fs.drop_last()[j].name by {
        assert(fs.drop_last()[i] == fs[i] && fs.drop_last()[j] == fs[j]);
    }
}

proof fn lemma_removed_occurrences(a: Seq<FieldView>, b: Seq<FieldView>, f: FieldView)
    requires
        distinct_names(a),
    ensures
        occurrences(removed_spec(a, b), DiffView::Removed { field: f }) == if a.contains(f) && !has_name(
            b,
            f.name,
        ) {
            1nat
        } else {
            0nat
        },
    decreases a.len(),
{
    let x = DiffView::Removed { field: f };
    if a.len() > 0 {
        let a0 = a.drop_last();
        lemma_distinct_drop_last(a);
        lemma_removed_occurrences(a0, b, f);
        lemma_has_name_first_named(b, a.last().name);
        assert(a.contains(f) <==> a0.contains(f) || a.last() == f) by {
            if a.contains(f) {
                let i = choose|i: int| 0 <= i < a.len() && a[i] == f;
                if i < a.len() - 1 {
                    assert(a0[i] == f);
                }
            }
            if a0.contains(f) {
                let i = choose|i: int| 0 <= i < a0.len() && a0[i] == f;
                assert(a[i] == f);
            }
            if a.last() == f {
                assert(a[a.len() - 1] == f);
            }
        }
        if a.last() == f {
            assert(!a0.contains(f)) by {
                if a0.contains(f) {
                    let i = choose|i: int| 0 <= i < a0.len() && a0[i] == f;
                    assert(a[i] == f);
                    assert(a[i].name != a.last().name);
                }
            }
        }
        lemma_occurrences_push(removed_spec(a0, b), DiffView::Removed { field: a.last() }, x);
    }
}

proof fn lemma_added_changed_occurrences(
    a: Seq<FieldView>,
    b: Seq<FieldView>,
    f: FieldView,
    n: Seq<char>,
    from: FieldTypeView,
    to: FieldTypeView,
    breaking: bool,
)
    requires
        distinct_names(b),
    ensures
        occurrences(added_changed_spec(a, b), DiffView::Added { field: f }) == if b.contains(f)
            && !has_name(a, f.name) {
            1nat
        } else {
            0nat
        },
        occurrences(added_changed_spec(a, b), DiffView::Changed { name: n, from, to, breaking })
            == if type_changed(a, b, n, from, to, breaking) {
            1nat
        } else {
            0nat
        },
        occurrences(added_changed_spec(a, b), DiffView::Removed { field: f }) == 0,
    decreases b.len(),
{
    if b.len() > 0 {
        let b0 = b.drop_last();
        let fb = b.last();
        lemma_distinct_drop_last(b);
        lemma_added_changed_occurrences(a, b0, f, n, from, to, breaking);
        lemma_has_name_first_named(a, fb.name);
        lemma_has_name_first_named(a, f.name);
        let rest = added_changed_spec(a, b0);
        match first_named(a, fb.name) {
            None => {
                let d = DiffView::Added { field: fb };
                lemma_occurrences_push(rest, d, DiffView::Added { field: f });
                lemma_occurrences_push(rest, d, DiffView::Changed { name: n, from, to, breaking });
                lemma_occurrences_push(rest, d, DiffView::Removed { field: f });
            },
            Some(fa) => {
                if fa.field_type != fb.field_type {
                    let d = DiffView::Changed {
                        name: fb.name,
                        from: fa.field_type,
                        to: fb.field_type,
                        breaking: !compatible_change_spec(fa.field_type, fb.field_type),
                    };
                    lemma_occurrences_push(rest, d, DiffView::Added { field: f });
                    lemma_occurrences_push(rest, d, DiffView::Changed { name: n, from, to, breaking });
                    lemma_occurrences_push(rest, d, DiffView::Removed { field: f });
                }
            },
        }
        assert(b.contains(f) <==> b0.contains(f) || fb == f) by {
            if b.contains(f) {
                let i = choose|i: int| 0 <= i < b.len() && b[i] == f;
                if i < b.len() - 1 {
                    assert(b0[i] == f);
                }
            }
            if b0.contains(f) {
                let i = choose|i: int| 0 <= i < b0.len() && b0[i] == f;
                assert(b[i] == f);
            }
            if fb == f {
                assert(b[b.len() - 1] == f);
            }
        }
        if fb == f {
            assert(!b0.contains(f)) by {
                if b0.contains(f) {
                    let i = choose|i: int| 0 <= i < b0.len() && b0[i] == f;
                    assert(b[i] == f);
                    assert(b[i].name != fb.name);
                }
            }
        }
        let w = exists|j: int| 0 <= j < b.len() && b[j].name == n && b[j].field_type == to;
        let w0 = exists|j: int| 0 <= j < b0.len() && b0[j].name == n && b0[j].field_type == to;
        assert(w <==> w0 || (fb.name == n && fb.field_type == to)) by {
            if w {
                let j = choose|j: int| 0 <= j < b.len() && b[j].name == n && b[j].field_type == to;
                if j < b.len() - 1 {
                    assert(b0[j] == b[j]);
                }
            }
            if w0 {
                let j = choose|j: int| 0 <= j < b0.len() && b0[j].name == n && b0[j].field_type == to;
                assert(b[j] == b0[j]);
            }
            if fb.name == n && fb.field_type == to {
                assert(b[b.len() - 1] == fb);
            }
        }
        if fb.name == n {
            assert(!w0) by {
                if w0 {
                    let j = choose|j: int| 0 <= j < b0.len() && b0[j].name == n && b0[j].field_type == to;
                    assert(b[j] == b0[j]);
                    assert(b[j].name != fb.name);
                }
            }
        }
    }
}

/// Comparing two schemas, each field of `a` that `b` has no field of the
/// same name for is reported once as `Removed`, and nothing else is: a
/// `Removed` field is a field of `a` whose name `b` lacks.
pub proof fn law_removed_exactly_once(a: Seq<FieldView>, b: Seq<FieldView>, f: FieldView)
    requires
        distinct_names(a),
        distinct_names(b),
    ensures
        occurrences(changes_spec(a, b), DiffView::Removed { field: f }) == if a.contains(f)
            && forall|j: int| 0 <= j < b.len() ==> b[j].name != f.name {
            1nat
        } else {
            0nat
        },
{
    lemma_removed_occurrences(a, b, f);
    lemma_added_changed_occurrences(a, b, f, f.name, f.field_type, f.field_type, false);
    lemma_occurrences_concat(removed_spec(a, b), added_changed_spec(a, b), DiffView::Removed { field: f });
}

/// Comparing two schemas, each field of `b` that `a` has no field of the
/// same name for is reported once as `Added`, and nothing else is.
pub proof fn law_added_exactly_once(a: Seq<FieldView>, b: Seq<FieldView>, f: FieldView)
    requires
        distinct_names(b),
    ensures
        occurrences(changes_spec(a, b), DiffView::Added { field: f }) == if b.contains(f)
            && forall|i: int| 0 <= i < a.len() ==> a[i].name != f.name {
            1nat
        } else {
            0nat
        },
{
    lemma_removed_none_of(a, b, DiffView::Added { field: f });
    lemma_added_changed_occurrences(a, b, f, f.name, f.field_type, f.field_type, false);
    lemma_occurrences_concat(removed_spec(a, b), added_changed_spec(a, b), DiffView::Added { field: f });
}

/// Comparing two schemas, a field of `b` whose type differs from that of the
/// first field of `a` with its name is reported once as `Changed`, from the
/// type in `a` to the type in `b`, breaking unless the change is a widening
/// (Int32 to Int64, Float32 to Float64, Utf8 to LargeUtf8, Binary to
/// LargeBinary); no other `Changed` is reported.
pub proof fn law_changed_exactly_once(
    a: Seq<FieldView>,
    b: Seq<FieldView>,
    n: Seq<char>,
    from: FieldTypeView,
    to: FieldTypeView,
    breaking: bool,
)
    requires
        distinct_names(b),
    ensures
        occurrences(changes_spec(a, b), DiffView::Changed { name: n, from, to, breaking }) == if type_changed(
            a,
            b,
            n,
            from,
            to,
            breaking,
        ) {
            1nat
        } else {
            0nat
        },
{
    let x = DiffView::Changed { name: n, from, to, breaking };
    assert(occurrences(removed_spec(a, b), x) == 0) by {
        lemma_removed_none_of(a, b, x);
    }
    lemma_added_changed_occurrences(a, b, b.first(), n, from, to, breaking);
    lemma_occurrences_concat(removed_spec(a, b), added_changed_spec(a, b), x);
}

proof fn lemma_removed_none_of(a: Seq<FieldView>, b: Seq<FieldView>, x: DiffView)
    requires
        !(x is Removed),
    ensures
        occurrences(removed_spec(a, b), x) == 0,
    decreases a.len(),
{
    if a.len() > 0 {
        lemma_removed_none_of(a.drop_last(), b, x);
        lemma_occurrences_push(removed_spec(a.drop_last(), b), DiffView::Removed { field: a.last() }, x);
    }
}

proof fn lemma_added_changed_same_pairs(a: Seq<FieldView>, b: Seq<FieldView>, k: int)
    requires
        distinct_names(a),
        0 <= k <= b.len(),
        forall|j: int|
            0 <= j < b.len() ==> exists|i: int|
                0 <= i < a.len() && a[i].name == #[trigger] b[j].name && a[i].field_type == b[j].field_type,
    ensures
        added_changed_spec(a, b.take(k)) == Seq::<DiffView>::empty(),
    decreases k,
{
    if k > 0 {
        assert(b.take(k).drop_last() =~= b.take(k - 1));
        assert(b.take(k).last() == b[k - 1]);
        let i = choose|i: int|
            0 <= i < a.len() && a[i].name == #[trigger] b[k - 1].name && a[i].field_type == b[k
                - 1].field_type;
        lemma_first_named_found(a, i);
        lemma_added_changed_same_pairs(a, b, k - 1);
    }
}

/// Reordering fields changes nothing that the comparison reports: where two
/// schemas with distinct names hold the same names with the same types, in
/// any order and whatever their nullability and metadata, there is no change
/// and the comparison is compatible.
pub proof fn law_reordering_is_no_change(a: Seq<FieldView>, b: Seq<FieldView>)
    requires
        distinct_names(a),
        distinct_names(b),
        forall|i: int|
            0 <= i < a.len() ==> exists|j: int|
                0 <= j < b.len() && b[j].name == #[trigger] a[i].name && b[j].field_type == a[i].field_type,
        forall|j: int|
            0 <= j < b.len() ==> exists|i: int|
                0 <= i < a.len() && a[i].name == #[trigger] b[j].name && a[i].field_type == b[j].field_type,
    ensures
        changes_spec(a, b) == Seq::<DiffView>::empty(),
        no_breaking(changes_spec(a, b)),
{
    assert forall|i: int| 0 <= i < a.len() implies first_named(b, #[trigger] a[i].name) is Some by {
        let j = choose|j: int|
            0 <= j < b.len() && b[j].name == #[trigger] a[i].name && b[j].field_type == a[i].field_type;
        lemma_first_named_some(b, j);
    }
    lemma_removed_none(a, b);
    lemma_added_changed_same_pairs(a, b, b.len() as int);
    assert(b.take(b.len() as int) =~= b);
    assert(Seq::<DiffView>::empty() + Seq::<DiffView>::empty() =~= Seq::<DiffView>::empty());
}

// ─── WebHDFS paths ──────────────────────────────────────────────────────────

proof fn lemma_trim_end_shape(s: Seq<char>, c: char)
    ensures
        trim_end(s, Trim::Char(c)).len() <= s.len(),
        trim_end(s, Trim::Char(c)) == s.subrange(0, trim_end(s, Trim::Char(c)).len() as int),
        trim_end(s, Trim::Char(c)).len() == 0 || trim_end(s, Trim::Char(c)).last() != c,
        forall|i: int| trim_end(s, Trim::Char(c)).len() <= i < s.len() ==> s[i] == c,
    decreases s.len(),
{
    if s.len() > 0 && s.last() == c {
        lemma_trim_end_shape(s.drop_last(), c);
        let t = trim_end(s.drop_last(), Trim::Char(c));
        assert(s.drop_last().subrange(0, t.len() as int) =~= s.subrange(0, t.len() as int));
        assert forall|i: int| t.len() <= i < s.len() implies s[i] == c by {
            if i < s.len() - 1 {
                assert(s.drop_last()[i] == s[i]);
            }
        }
    } else {
        assert(s.subrange(0, s.len() as int) =~= s);
    }
}

proof fn lemma_trim_end_fixed(s: Seq<char>, c: char)
    requires
        s.len() == 0 || s.last() != c,
    ensures
        trim_end(s, Trim::Char(c)) == s,
{
}

/// A normalized path begins with `/` and, unless it is the root, does not end
/// with `/`.
pub proof fn law_normalized_path_shape(path: Seq<char>)
    ensures
        ({
            let r = normalize_path_spec(path);
            &&& has_prefix(r, "/"@)
            &&& (r == "/"@ || r.last() != '/')
        }),
{
    reveal_strlit("/");
    let p = if has_prefix(path, "/"@) { path } else { "/"@ + path };
    assert(p[0] == '/') by {
        if has_prefix(path, "/"@) {
            assert(path.subrange(0, 1)[0] == path[0]);
        }
    }
    lemma_trim_end_shape(p, '/');
    let t = trim_end(p, Trim::Char('/'));
    if t.len() > 0 {
        assert(t[0] == p[0]);
        assert(t.subrange(0, 1) =~= "/"@);
    } else {
        assert("/"@.subrange(0, 1) =~= "/"@);
    }
}

/// Normalizing a normalized path changes nothing.
pub proof fn law_normalize_path_idempotent(path: Seq<char>)
    ensures
        normalize_path_spec(normalize_path_spec(path)) == normalize_path_spec(path),
{
    reveal_strlit("/");
    law_normalized_path_shape(path);
    let r = normalize_path_spec(path);
    if r != "/"@ {
        lemma_trim_end_fixed(r, '/');
    } else {
        assert("/"@.subrange(0, 1) =~= "/"@);
        assert("/"@.last() == '/');
        assert("/"@.drop_last() =~= Seq::<char>::empty());
        assert(trim_end("/"@, Trim::Char('/')) == trim_end(Seq::<char>::empty(), Trim::Char('/')));
    }
}

/// The entries of the pages of a listing, one page after the other.
pub open spec fn concat_pages(pages: Seq<Seq<WFileStatus>>) -> Seq<WFileStatus>
    decreases pages.len(),
{
    if pages.len() == 0 {
        Seq::empty()
    } else {
        concat_pages(pages.drop_last()) + pages.last()
    }
}

proof fn lemma_pages_prefix(pages: Seq<Seq<WFileStatus>>, parent: Seq<char>, lists: Seq<Seq<FileStatus>>, k: int)
    requires
        lists.len() == pages.len() + 1,
        lists[0].len() == 0,
        forall|n: int| 0 <= n < pages.len() ==> batch_appended(#[trigger] lists[n], pages[n], parent, lists[n + 1]),
        0 <= k <= pages.len(),
    ensures
        lists[k].len() == concat_pages(pages.take(k)).len(),
        forall|i: int|
            0 <= i < lists[k].len() ==> file_status_spec(concat_pages(pages.take(k))[i], parent, #[trigger] lists[k][i]),
    decreases k,
{
    if k > 0 {
        lemma_pages_prefix(pages, parent, lists, k - 1);
        assert(pages.take(k).drop_last() =~= pages.take(k - 1));
        assert(pages.take(k).last() == pages[k - 1]);
        let before = concat_pages(pages.take(k - 1));
        let now = concat_pages(pages.take(k));
        assert(now == before + pages[k - 1]);
        assert(batch_appended(lists[k - 1], pages[k - 1], parent, lists[k]));
        assert forall|i: int| 0 <= i < lists[k].len() implies file_status_spec(now[i], parent, #[trigger] lists[k][i]) by {
            if i < before.len() {
                assert(lists[k][i] == lists[k - 1][i]);
                assert(now[i] == before[i]);
            } else {
                let m = i - before.len();
                assert(now[i] == pages[k - 1][m]);
                assert(lists[k][lists[k - 1].len() + m] == lists[k][i]);
            }
        }
    } else {
        assert(pages.take(0) =~= Seq::<Seq<WFileStatus>>::empty());
    }
}

/// A listing read page by page is the pages' entries, one page after the
/// other and in the order of each page, each converted to a status under the
/// listed directory: `lists[n]` is what the listing holds after `n` pages,
/// starting from nothing, each page appended by `list_batch_step`.
pub proof fn law_paged_listing_concatenates(
    pages: Seq<Seq<WFileStatus>>,
    parent: Seq<char>,
    lists: Seq<Seq<FileStatus>>,
)
    requires
        lists.len() == pages.len() + 1,
        lists[0].len() == 0,
        forall|n: int| 0 <= n < pages.len() ==> batch_appended(#[trigger] lists[n], pages[n], parent, lists[n + 1]),
    ensures
        lists.last().len() == concat_pages(pages).len(),
        forall|i: int|
            0 <= i < lists.last().len() ==> file_status_spec(concat_pages(pages)[i], parent, #[trigger] lists.last()[i]),
{
    lemma_pages_prefix(pages, parent, lists, pages.len() as int);
    assert(pages.take(pages.len() as int) =~= pages);
}

/// The wait before retry `k` (from 0) when the first wait is `first`.
pub open spec fn backoff_delay(first: u64, k: nat) -> u64
    decreases k,
{
    if k == 0 {
        first
    } else {
        backoff_next(backoff_delay(first, (k - 1) as nat))
    }
}

/// Starting from one second, the waits between retries double, 1, 2, 4, 8
/// and 16 seconds, and from then on stay at 30 seconds.
pub proof fn law_backoff_delays(k: nat)
    ensures
        backoff_delay(1, k) == if k < 5 { pow2(k) } else { 30 },
    decreases k,
{
    lemma2_to64();
    if k > 0 {
        law_backoff_delays((k - 1) as nat);
        if k < 5 {
            lemma_pow2_adds((k - 1) as nat, 1);
            assert(pow2(k) == 2 * pow2((k - 1) as nat));
        }
    }
}

// ─── Parquet statistics ─────────────────────────────────────────────────────

/// The four little-endian bytes of a 32-bit integer, as Parquet stores an
/// INT32 statistic.
pub open spec fn int32_le_bytes(x: i32) -> Seq<u8> {
    let v = x as u32;
    seq![(v & 0xff) as u8, ((v >> 8) & 0xff) as u8, ((v >> 16) & 0xff) as u8, ((v >> 24) & 0xff) as u8]
}

/// An INT32 statistic reads back as the integer whose little-endian bytes it
/// holds, written in decimal.
pub proof fn law_int32_statistic_reads_back(x: i32)
    ensures
        stat_text_spec(int32_le_bytes(x), PhysicalType::INT32) == Some(signed_decimal(x as int)),
{
    let v = x as u32;
    let b = int32_le_bytes(x);
    let b0 = v & 0xff;
    let b1 = (v >> 8) & 0xff;
    let b2 = (v >> 16) & 0xff;
    let b3 = (v >> 24) & 0xff;
    assert(b0 < 256 && b1 < 256 && b2 < 256 && b3 < 256) by (bit_vector)
        requires
            b0 == v & 0xff,
            b1 == (v >> 8) & 0xff,
            b2 == (v >> 16) & 0xff,
            b3 == (v >> 24) & 0xff,
    ;
    assert(b0 + 256 * b1 + 65536 * b2 + 16777216 * b3 == v) by (bit_vector)
        requires
            b0 == v & 0xff,
            b1 == (v >> 8) & 0xff,
            b2 == (v >> 16) & 0xff,
            b3 == (v >> 24) & 0xff,
    ;
    assert(b[0] == b0 && b[1] == b1 && b[2] == b2 && b[3] == b3);
    assert(le4(b) == v);
    assert(x >= 0 ==> (x as u32) as i64 == x as i64) by (bit_vector);
    assert(x < 0 ==> (x as u32) as i64 == x as i64 + 4294967296i64) by (bit_vector);
    lemma2_to64();
    assert(twos_complement(le4(b), 32) == x as int);
}

/// The eight little-endian bytes of a 64-bit integer, as Parquet stores an
/// INT64 statistic.
pub open spec fn int64_le_bytes(x: i64) -> Seq<u8> {
    let v = x as u64;
    seq![
        (v & 0xff) as u8,
        ((v >> 8) & 0xff) as u8,
        ((v >> 16) & 0xff) as u8,
        ((v >> 24) & 0xff) as u8,
        ((v >> 32) & 0xff) as u8,
        ((v >> 40) & 0xff) as u8,
        ((v >> 48) & 0xff) as u8,
        ((v >> 56) & 0xff) as u8,
    ]
}

/// An INT64 statistic reads back as the integer whose little-endian bytes it
/// holds, written in decimal.
pub proof fn law_int64_statistic_reads_back(x: i64)
    ensures
        stat_text_spec(int64_le_bytes(x), PhysicalType::INT64) == Some(signed_decimal(x as int)),
{
    let v = x as u64;
    let b = int64_le_bytes(x);
    let lo = v & 0xffff_ffff;
    let hi = v >> 32;
    let b0 = v & 0xff;
    let b1 = (v >> 8) & 0xff;
    let b2 = (v >> 16) & 0xff;
    let b3 = (v >> 24) & 0xff;
    let b4 = (v >> 32) & 0xff;
    let b5 = (v >> 40) & 0xff;
    let b6 = (v >> 48) & 0xff;
    let b7 = (v >> 56) & 0xff;
    assert(b0 < 256 && b1 < 256 && b2 < 256 && b3 < 256 && b4 < 256 && b5 < 256 && b6 < 256 && b7
        < 256) by (bit_vector)
        requires
            b0 == v & 0xff,
            b1 == (v >> 8) & 0xff,
            b2 == (v >> 16) & 0xff,
            b3 == (v >> 24) & 0xff,
            b4 == (v >> 32) & 0xff,
            b5 == (v >> 40) & 0xff,
            b6 == (v >> 48) & 0xff,
            b7 == (v >> 56) & 0xff,
    ;
    assert(b0 + 256 * b1 + 65536 * b2 + 16777216 * b3 == lo) by (bit_vector)
        requires
            lo == v & 0xffff_ffff,
            b0 == v & 0xff,
            b1 == (v >> 8) & 0xff,
            b2 == (v >> 16) & 0xff,
            b3 == (v >> 24) & 0xff,
    ;
    assert(b4 + 256 * b5 + 65536 * b6 + 16777216 * b7 == hi) by (bit_vector)
        requires
            hi == v >> 32,
            b4 == (v >> 32) & 0xff,
            b5 == (v >> 40) & 0xff,
            b6 == (v >> 48) & 0xff,
            b7 == (v >> 56) & 0xff,
    ;
    assert(lo + 4294967296 * hi == v) by (bit_vector)
        requires
            lo == v & 0xffff_ffff,
            hi == v >> 32,
    ;
    assert(b[0] == b0 && b[1] == b1 && b[2] == b2 && b[3] == b3);
    assert(b.skip(4)[0] == b4 && b.skip(4)[1] == b5 && b.skip(4)[2] == b6 && b.skip(4)[3] == b7);
    assert(le4(b) == lo);
    assert(le4(b.skip(4)) == hi);
    assert(le8(b) == v);
    assert(x >= 0 ==> (x as u64) as i128 == x as i128) by (bit_vector);
    assert(x < 0 ==> (x as u64) as i128 == x as i128 + 18446744073709551616i128) by (bit_vector);
    lemma2_to64();
    lemma2_to64_rest();
    assert(twos_complement(le8(b), 64) == x as int);
}

// ─── Hadoop XML ─────────────────────────────────────────────────────────────

pub open spec fn tag(name: Seq<char>) -> Seq<u8> {
    name.map_values(|ch: char| ch as u8)
}

/// The events of `<property><name>n</name><value>v</value></property>`.
pub open spec fn property_events(n: Seq<char>, v: Seq<char>) -> Seq<XmlEventView> {
    seq![
        XmlEventView::Start(tag("property"@)),
        XmlEventView::Start(tag("name"@)),
        XmlEventView::Text(Ok(n)),
        XmlEventView::End(tag("name"@)),
        XmlEventView::Start(tag("value"@)),
        XmlEventView::Text(Ok(v)),
        XmlEventView::End(tag("value"@)),
        XmlEventView::End(tag("property"@)),
    ]
}

pub open spec fn steps(c: CollectorView, evs: Seq<XmlEventView>) -> CollectorView
    decreases evs.len(),
{
    if evs.len() == 0 {
        c
    } else {
        collector_step(steps(c, evs.drop_last()), evs.last())
    }
}

/// Reading a `<property>` with a name and a value, whatever came before,
/// records the trimmed value under the trimmed name, replacing any value
/// recorded for that name earlier, and leaves every other property as it was.
#[verifier::spinoff_prover]
#[verifier::rlimit(40)]
pub proof fn law_property_recorded(c: CollectorView, n: Seq<char>, v: Seq<char>)
    ensures
        steps(c, property_events(n, v)).props == c.props.insert(
            trim_both(n, Trim::Whitespace),
            trim_both(v, Trim::Whitespace),
        ),
        !steps(c, property_events(n, v).drop_last()).in_name,
        !steps(c, property_events(n, v).drop_last()).in_value,
        steps(c, property_events(n, v).drop_last()).current_name == Some(trim_both(n, Trim::Whitespace)),
        steps(c, property_events(n, v).drop_last()).current_value == Some(trim_both(v, Trim::Whitespace)),
{
    reveal_strlit("property");
    reveal_strlit("name");
    reveal_strlit("value");
    let p = tag("property"@);
    let nm = tag("name"@);
    let vl = tag("value"@);
    assert(p.len() == 8 && nm.len() == 4 && vl.len() == 5);
    assert(nm[0] == 'n' as u8 && vl[0] == 'v' as u8);
    assert(nm != vl);
    let evs = property_events(n, v);
    reveal_with_fuel(steps, 9);
    assert(evs.drop_last().drop_last().drop_last().drop_last().drop_last().drop_last().drop_last()
        .drop_last() =~= Seq::<XmlEventView>::empty());
    let s1 = collector_step(c, evs[0]);
    assert(!s1.in_name && !s1.in_value && s1.current_name is None && s1.current_value is None);
    let s2 = collector_step(s1, evs[1]);
    assert(s2.in_name);
    let s3 = collector_step(s2, evs[2]);
    assert(s3.current_name == Some(trim_both(n, Trim::Whitespace)));
    let s4 = collector_step(s3, evs[3]);
    assert(!s4.in_name);
    let s5 = collector_step(s4, evs[4]);
    assert(s5.in_value && !s5.in_name);
    let s6 = collector_step(s5, evs[5]);
    assert(s6.current_value == Some(trim_both(v, Trim::Whitespace)));
    let s7 = collector_step(s6, evs[6]);
    let s8 = collector_step(s7, evs[7]);
    assert(s8.props == c.props.insert(trim_both(n, Trim::Whitespace), trim_both(v, Trim::Whitespace)));
    assert(evs.drop_last() =~= evs.subrange(0, 7));
    assert(evs.subrange(0, 7).drop_last() =~= evs.subrange(0, 6));
    assert(evs.subrange(0, 6).drop_last() =~= evs.subrange(0, 5));
    assert(evs.subrange(0, 5).drop_last() =~= evs.subrange(0, 4));
    assert(evs.subrange(0, 4).drop_last() =~= evs.subrange(0, 3));
    assert(evs.subrange(0, 3).drop_last() =~= evs.subrange(0, 2));
    assert(evs.subrange(0, 2).drop_last() =~= evs.subrange(0, 1));
    assert(evs.subrange(0, 1).drop_last() =~= Seq::<XmlEventView>::empty());
    assert(steps(c, evs.subrange(0, 1)) == s1);
    assert(steps(c, evs.subrange(0, 2)) == s2);
    assert(steps(c, evs.subrange(0, 3)) == s3);
    assert(steps(c, evs.subrange(0, 4)) == s4);
    assert(steps(c, evs.subrange(0, 5)) == s5);
    assert(steps(c, evs.subrange(0, 6)) == s6);
    assert(steps(c, evs.subrange(0, 7)) == s7);
    assert(steps(c, evs) == s8);
    assert(!s7.in_name && !s7.in_value);
    assert(s7.current_name == Some(trim_both(n, Trim::Whitespace)));
    assert(s7.current_value == Some(trim_both(v, Trim::Whitespace)));
}


// ─── Field types, statuses, profile users and XML properties ───────────────

/// A floating-point column keeps the width of its stored type whatever its
/// annotations: FLOAT is `Float32` and DOUBLE is `Float64`; a BOOLEAN column
/// is `Boolean`.
pub proof fn law_float_columns_keep_their_width(logical: Option<LogicalType>, converted: ConvertedType)
    ensures
        primitive_type_spec(PhysicalType::FLOAT, logical, converted) == FieldTypeView::Float32,
        primitive_type_spec(PhysicalType::DOUBLE, logical, converted) == FieldTypeView::Float64,
        primitive_type_spec(PhysicalType::BOOLEAN, logical, converted) == FieldTypeView::Boolean,
{
}

/// The type changes that keep old data readable are exactly the four
/// widenings Int32 to Int64, Float32 to Float64, Utf8 to LargeUtf8 and Binary
/// to LargeBinary.
pub proof fn law_compatible_changes_are_the_widenings(from: FieldTypeView, to: FieldTypeView)
    ensures
        compatible_change_spec(from, to) <==> {
            ||| (from == FieldTypeView::Int32 && to == FieldTypeView::Int64)
            ||| (from == FieldTypeView::Float32 && to == FieldTypeView::Float64)
            ||| (from == FieldTypeView::Utf8 && to == FieldTypeView::LargeUtf8)
            ||| (from == FieldTypeView::Binary && to == FieldTypeView::LargeBinary)
        },
{
}

/// Comparing a field with the same-named field of another type reports one
/// `Changed` from the old type to the new, and the comparison is compatible
/// exactly when the change is one of the four widenings: a Float32 column
/// that becomes Float64 is a compatible change, a Float64 column that becomes
/// Float32 is not.
pub proof fn law_type_change_of_one_field(fa: FieldView, fb: FieldView)
    requires
        fa.name == fb.name,
        fa.field_type != fb.field_type,
    ensures
        changes_spec(seq![fa], seq![fb]) == seq![
            DiffView::Changed {
                name: fb.name,
                from: fa.field_type,
                to: fb.field_type,
                breaking: !compatible_change_spec(fa.field_type, fb.field_type),
            },
        ],
        no_breaking(changes_spec(seq![fa], seq![fb])) <==> {
            ||| (fa.field_type == FieldTypeView::Int32 && fb.field_type == FieldTypeView::Int64)
            ||| (fa.field_type == FieldTypeView::Float32 && fb.field_type == FieldTypeView::Float64)
            ||| (fa.field_type == FieldTypeView::Utf8 && fb.field_type == FieldTypeView::LargeUtf8)
            ||| (fa.field_type == FieldTypeView::Binary && fb.field_type == FieldTypeView::LargeBinary)
        },
{
    let a = seq![fa];
    let b = seq![fb];
    assert(a.drop_last() =~= Seq::<FieldView>::empty());
    assert(b.drop_last() =~= Seq::<FieldView>::empty());
    assert(a.drop_first() =~= Seq::<FieldView>::empty());
    assert(b.drop_first() =~= Seq::<FieldView>::empty());
    assert(first_named(b, fa.name) == Some(fb));
    assert(first_named(a, fb.name) == Some(fa));
    assert(a.last() == fa && b.last() == fb);
    assert(removed_spec(a.drop_last(), b) == Seq::<DiffView>::empty());
    assert(removed_spec(a, b) =~= Seq::<DiffView>::empty());
    assert(added_changed_spec(a, b.drop_last()) == Seq::<DiffView>::empty());
    let d = DiffView::Changed {
        name: fb.name,
        from: fa.field_type,
        to: fb.field_type,
        breaking: !compatible_change_spec(fa.field_type, fb.field_type),
    };
    assert(added_changed_spec(a, b) == Seq::<DiffView>::empty().push(d));
    assert(added_changed_spec(a, b) =~= seq![d]);
    assert(changes_spec(a, b) =~= seq![d]);
    assert(is_breaking(d) == !compatible_change_spec(fa.field_type, fb.field_type));
    if !compatible_change_spec(fa.field_type, fb.field_type) {
        assert(is_breaking(changes_spec(a, b)[0]));
    }
}

/// A profile entry `HADOOP_USER_NAME=v` does what `HFS_USER=v` does: on a
/// configuration without a user it makes `v` the user, and it asks for no
/// configuration directory.
pub proof fn law_hadoop_user_name_is_hfs_user(c: ConfigView, v: Seq<char>)
    ensures
        env_key_spec(c, "HADOOP_USER_NAME"@, v) == env_key_spec(c, "HFS_USER"@, v),
        c.hdfs_user is None ==> env_key_spec(c, "HADOOP_USER_NAME"@, v).hdfs_user == Some(v),
        c.hdfs_user is None ==> env_key_spec(c, "HFS_USER"@, v).hdfs_user == Some(v),
        env_key_conf_dir(c, "HADOOP_USER_NAME"@, v) is None,
{
    reveal_strlit("HADOOP_USER_NAME");
    reveal_strlit("HFS_USER");
    reveal_strlit("HFS_NAMENODE");
    assert("HADOOP_USER_NAME"@[1] != "HFS_NAMENODE"@[1]);
    assert("HFS_USER"@.len() != "HFS_NAMENODE"@.len());
}

/// A converted status copies every field of the WebHDFS entry to the field of
/// the same meaning: the entry's owner is the owner and its group the group,
/// and so for the permission, length, replication, block size and times; its
/// path is the entry's suffix under the listed directory.
pub proof fn law_status_fields_keep_their_meaning(ws: WFileStatus, parent: Seq<char>, fs: FileStatus)
    requires
        file_status_spec(ws, parent, fs),
    ensures
        fs.owner@ == ws.owner@,
        fs.group@ == ws.group@,
        fs.permission@ == ws.permission@,
        fs.length == ws.length,
        fs.replication == ws.replication,
        fs.block_size == ws.block_size,
        fs.modification_time == ws.modification_time,
        fs.access_time == ws.access_time,
        fs.is_dir == (ws.type_@ == "DIRECTORY"@),
        fs.path@ == child_path_spec(parent, ws.path_suffix@),
{
}

/// An element other than `<property>`, `<name>` and `<value>`, such as
/// `<description>` or `<final>`, with whatever text it holds, changes nothing
/// that is being collected when it stands outside `<name>` and `<value>`: so
/// `<property><name>n</name><value>v</value><d>x</d></property>` still
/// records the trimmed `v` under the trimmed `n`.
pub proof fn law_other_elements_change_nothing(c: CollectorView, d: Seq<u8>, x: Seq<char>)
    requires
        !c.in_name,
        !c.in_value,
        d != tag("property"@),
        d != tag("name"@),
        d != tag("value"@),
    ensures
        steps(c, seq![XmlEventView::Start(d), XmlEventView::Text(Ok(x)), XmlEventView::End(d)]) == c,
{
    let evs = seq![XmlEventView::Start(d), XmlEventView::Text(Ok(x)), XmlEventView::End(d)];
    reveal_with_fuel(steps, 4);
    assert(evs.drop_last() =~= seq![XmlEventView::Start(d), XmlEventView::Text(Ok(x))]);
    assert(evs.drop_last().drop_last() =~= seq![XmlEventView::Start(d)]);
    assert(evs.drop_last().drop_last().drop_last() =~= Seq::<XmlEventView>::empty());
    assert(collector_step(c, XmlEventView::Start(d)) == c);
    assert(collector_step(c, XmlEventView::Text(Ok(x))) == c);
    assert(collector_step(c, XmlEventView::End(d)) == c);
}

/// After `<name>n</name><value>v</value>` inside a `<property>`, the reader is
/// inside neither element, with the trimmed name and value pending; an
/// element `<d>x</d>` after them leaves that so, and `</property>` then
/// records the trimmed value under the trimmed name.
pub proof fn law_property_with_other_element(c: CollectorView, n: Seq<char>, v: Seq<char>, d: Seq<u8>, x: Seq<char>)
    requires
        d != tag("property"@),
        d != tag("name"@),
        d != tag("value"@),
    ensures
        ({
            let s7 = steps(c, property_events(n, v).drop_last());
            &&& !s7.in_name
            &&& !s7.in_value
            &&& s7.current_name == Some(trim_both(n, Trim::Whitespace))
            &&& s7.current_value == Some(trim_both(v, Trim::Whitespace))
            &&& steps(s7, seq![XmlEventView::Start(d), XmlEventView::Text(Ok(x)), XmlEventView::End(d)]) == s7
            &&& collector_step(s7, XmlEventView::End(tag("property"@))).props == c.props.insert(
                trim_both(n, Trim::Whitespace),
                trim_both(v, Trim::Whitespace),
            )
        }),
{
    law_property_recorded(c, n, v);
    let evs = property_events(n, v);
    assert(evs.last() == XmlEventView::End(tag("property"@)));
    let s7 = steps(c, evs.drop_last());
    assert(steps(c, evs) == collector_step(s7, evs.last()));
    law_other_elements_change_nothing(s7, d, x);
}


/// A column without annotations has the type of what it stores: BOOLEAN is
/// `Boolean`, INT32 `Int32`, INT64 `Int64`, INT96 a timestamp without time
/// zone, FLOAT `Float32`, DOUBLE `Float64`, and byte arrays `Binary`.
pub proof fn law_plain_columns_keep_their_type()
    ensures
        primitive_type_spec(PhysicalType::BOOLEAN, None, ConvertedType::NONE) == FieldTypeView::Boolean,
        primitive_type_spec(PhysicalType::INT32, None, ConvertedType::NONE) == FieldTypeView::Int32,
        primitive_type_spec(PhysicalType::INT64, None, ConvertedType::NONE) == FieldTypeView::Int64,
        primitive_type_spec(PhysicalType::INT96, None, ConvertedType::NONE) == (FieldTypeView::Timestamp {
            timezone: None,
        }),
        primitive_type_spec(PhysicalType::FLOAT, None, ConvertedType::NONE) == FieldTypeView::Float32,
        primitive_type_spec(PhysicalType::DOUBLE, None, ConvertedType::NONE) == FieldTypeView::Float64,
        primitive_type_spec(PhysicalType::BYTE_ARRAY, None, ConvertedType::NONE) == FieldTypeView::Binary,
        primitive_type_spec(PhysicalType::FIXED_LEN_BYTE_ARRAY, None, ConvertedType::NONE)
            == FieldTypeView::Binary,
{
}

/// Annotations give the logical type whatever the converted type says: a
/// STRING or JSON byte array is `Utf8`, an 8- or 16-bit integer stored as
/// INT32 is `Int8` or `Int16`, a DATE stored as INT32 is `Date32`, and a UUID
/// stored as a fixed-length byte array is `Utf8`.
pub proof fn law_annotated_columns(converted: ConvertedType, signed: bool)
    ensures
        primitive_type_spec(PhysicalType::BYTE_ARRAY, Some(LogicalType::String), converted) == FieldTypeView::Utf8,
        primitive_type_spec(PhysicalType::BYTE_ARRAY, Some(LogicalType::Json), converted) == FieldTypeView::Utf8,
        primitive_type_spec(
            PhysicalType::INT32,
            Some(LogicalType::Integer { bit_width: 8, is_signed: signed }),
            converted,
        ) == FieldTypeView::Int8,
        primitive_type_spec(
            PhysicalType::INT32,
            Some(LogicalType::Integer { bit_width: 16, is_signed: signed }),
            converted,
        ) == FieldTypeView::Int16,
        primitive_type_spec(PhysicalType::INT32, Some(LogicalType::Date), converted) == FieldTypeView::Date32,
        primitive_type_spec(PhysicalType::FIXED_LEN_BYTE_ARRAY, Some(LogicalType::Uuid), converted)
            == FieldTypeView::Utf8,
{
}

/// Each profile entry sets what it names where nothing set it before:
/// `HFS_BACKEND` the backend over `auto`, `KRB5_PRINCIPAL` the principal and
/// `KRB5_KEYTAB` the keytab; `HFS_NAMENODE` does what the same NameNode from
/// the environment or the command line does; an entry with another key
/// changes nothing.
pub proof fn law_profile_entries_set_their_values(c: ConfigView, key: Seq<char>, v: Seq<char>)
    ensures
        c.preferred_backend == "auto"@ ==> env_key_spec(c, "HFS_BACKEND"@, v).preferred_backend == v,
        c.kerberos_principal is None ==> env_key_spec(c, "KRB5_PRINCIPAL"@, v).kerberos_principal == Some(v),
        c.keytab_path is None ==> env_key_spec(c, "KRB5_KEYTAB"@, v).keytab_path == Some(v),
        env_key_spec(c, "HFS_NAMENODE"@, v) == apply_namenode_spec(c, v),
        (key != "HFS_NAMENODE"@ && key != "HFS_USER"@ && key != "HADOOP_USER_NAME"@ && key != "HFS_BACKEND"@
            && key != "KRB5_PRINCIPAL"@ && key != "KRB5_KEYTAB"@) ==> env_key_spec(c, key, v) == c,
{
    reveal_strlit("HFS_BACKEND");
    reveal_strlit("HFS_NAMENODE");
    reveal_strlit("HFS_USER");
    reveal_strlit("HADOOP_USER_NAME");
    reveal_strlit("KRB5_PRINCIPAL");
    reveal_strlit("KRB5_KEYTAB");
    reveal_strlit("HADOOP_CONF_DIR");
    assert("HFS_BACKEND"@[4] != "HFS_NAMENODE"@[4]);
    assert("HFS_BACKEND"@.len() != "HFS_USER"@.len());
    assert("HFS_BACKEND"@[1] != "HADOOP_USER_NAME"@[1]);
    assert("KRB5_PRINCIPAL"@[0] != "HFS_NAMENODE"@[0]);
    assert("KRB5_PRINCIPAL"@[0] != "HFS_USER"@[0]);
    assert("KRB5_PRINCIPAL"@[0] != "HADOOP_USER_NAME"@[0]);
    assert("KRB5_PRINCIPAL"@[0] != "HFS_BACKEND"@[0]);
    assert("KRB5_PRINCIPAL"@[0] != "HADOOP_CONF_DIR"@[0]);
    assert("KRB5_KEYTAB"@[0] != "HFS_NAMENODE"@[0]);
    assert("KRB5_KEYTAB"@[0] != "HFS_USER"@[0]);
    assert("KRB5_KEYTAB"@[0] != "HADOOP_USER_NAME"@[0]);
    assert("KRB5_KEYTAB"@[0] != "HFS_BACKEND"@[0]);
    assert("KRB5_KEYTAB"@[0] != "HADOOP_CONF_DIR"@[0]);
    assert("KRB5_KEYTAB"@.len() != "KRB5_PRINCIPAL"@.len());
}

} // verus!
