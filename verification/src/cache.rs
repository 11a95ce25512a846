//! Where kuber keeps things, how kubeconfig files are named, and the
//! versioned metadata envelope.
//!
//! - Metadata: `$XDG_CACHE_HOME/kuber/` (default `~/.cache/kuber/`), persistent.
//! - Configs: `/tmp/kuber-<uid>/configs/`, ephemeral.
use vstd::prelude::*;
use crate::cluster::{ClusterInfo, ClusterView, cluster_context_name, cluster_views};
use crate::text::{
    alphanumeric, char_is_alphanumeric, decimal, join_path, path_join, push_char, push_decimal,
};

verus! {

/// Current metadata schema version. Bump this when the `ClusterInfo` struct changes.
pub const METADATA_VERSION: u32 = 1;

/// Versioned metadata envelope. Allows detecting and discarding stale schemas.
#[derive(Debug)]
pub struct Metadata {
    pub version: u32,
    pub clusters: Vec<ClusterInfo>,
}

/// The two directories kuber works in.
#[derive(Debug)]
pub struct CacheDirs {
    /// Persistent storage for metadata (survives reboots).
    pub data: String,
    /// Ephemeral storage for kubeconfig files.
    pub temp: String,
}

/// `/tmp`
pub open spec fn tmp_path() -> Seq<char> {
    seq!['/', 't', 'm', 'p']
}

/// The persistent data directory: `$XDG_CACHE_HOME/kuber` when that variable is
/// set, else `$HOME/.cache/kuber`, with `/tmp` standing in for an unset `HOME`.
pub open spec fn data_dir_for(xdg_cache_home: Option<Seq<char>>, home: Option<Seq<char>>) -> Seq<char> {
    let base = match xdg_cache_home {
        Some(dir) => dir,
        None => path_join(
            match home {
                Some(h) => h,
                None => tmp_path(),
            },
            seq!['.', 'c', 'a', 'c', 'h', 'e'],
        ),
    };
    path_join(base, seq!['k', 'u', 'b', 'e', 'r'])
}

/// The ephemeral directory of a user: `/tmp/kuber-<uid>`.
pub open spec fn temp_dir_for(uid: u32) -> Seq<char> {
    seq!['/', 't', 'm', 'p', '/', 'k', 'u', 'b', 'e', 'r', '-'] + decimal(uid as nat)
}

/// `configs`
pub open spec fn configs_name() -> Seq<char> {
    seq!['c', 'o', 'n', 'f', 'i', 'g', 's']
}

/// `metadata.json`
pub open spec fn metadata_name() -> Seq<char> {
    seq!['m', 'e', 't', 'a', 'd', 'a', 't', 'a', '.', 'j', 's', 'o', 'n']
}

/// The configs directory below a temp directory.
pub open spec fn configs_dir_of(temp: Seq<char>) -> Seq<char> {
    path_join(temp, configs_name())
}

/// Computes the cache paths from the environment: the values of
/// `XDG_CACHE_HOME` and `HOME` (when set) and the user id.
///
/// - Metadata: `$XDG_CACHE_HOME/kuber/` (default `~/.cache/kuber/`)
/// - Configs:  `/tmp/kuber-<uid>/configs/`
pub fn init(xdg_cache_home: Option<String>, home: Option<String>, uid: u32) -> (r: CacheDirs)
    ensures
        r.data@ == data_dir_for(
            match xdg_cache_home {
                Some(x) => Some(x@),
                None => None,
            },
            match home {
                Some(h) => Some(h@),
                None => None,
            },
        ),
        r.temp@ == temp_dir_for(uid),
{
    proof {
        reveal_strlit("/tmp");
        reveal_strlit(".cache");
        assert("/tmp"@ =~= tmp_path());
        assert(".cache"@ =~= seq!['.', 'c', 'a', 'c', 'h', 'e']);
    }
    proof {
        reveal_strlit("/tmp");
        reveal_strlit(".cache");
        assert("/tmp"@ =~= tmp_path());
        assert(".cache"@ =~= seq!['.', 'c', 'a', 'c', 'h', 'e']);
    }
    let base = match xdg_cache_home {
        Some(dir) => dir,
        None => {
            let h = match home {
                Some(h) => h,
                None => String::from_str("/tmp"),
            };
            join_path(h.as_str(), ".cache")
        },
    };
    proof {
        reveal_strlit(".cache");
        reveal_strlit("kuber");
        reveal_strlit("/tmp/kuber-");
    }
    let data = join_path(base.as_str(), "kuber");
    let mut temp = String::from_str("/tmp/kuber-");
    push_decimal(&mut temp, uid);
    proof {
        assert("kuber"@ =~= seq!['k', 'u', 'b', 'e', 'r']);
        assert("/tmp/kuber-"@ =~= seq!['/', 't', 'm', 'p', '/', 'k', 'u', 'b', 'e', 'r', '-']);
    }
    CacheDirs { data, temp }
}

/// The persistent data directory.
pub fn data_dir(dirs: &CacheDirs) -> (r: &str)
    ensures
        r@ == dirs.data@,
{
    dirs.data.as_str()
}

/// The ephemeral temp directory.
pub fn temp_dir(dirs: &CacheDirs) -> (r: &str)
    ensures
        r@ == dirs.temp@,
{
    dirs.temp.as_str()
}

/// Returns the configs directory (ephemeral, in /tmp).
pub fn configs_dir(dirs: &CacheDirs) -> (r: String)
    ensures
        r@ == configs_dir_of(dirs.temp@),
{
    proof {
        reveal_strlit("configs");
        assert("configs"@ =~= configs_name());
    }
    join_path(dirs.temp.as_str(), "configs")
}

/// Returns the metadata file path (persistent, in XDG cache).
pub fn metadata_path(dirs: &CacheDirs) -> (r: String)
    ensures
        r@ == path_join(dirs.data@, metadata_name()),
{
    proof {
        reveal_strlit("metadata.json");
        assert("metadata.json"@ =~= metadata_name());
    }
    join_path(dirs.data.as_str(), "metadata.json")
}


/// A character that survives in a kubeconfig file name: alphanumeric, `_` or `-`.
pub open spec fn keep_char(c: char) -> bool {
    alphanumeric(c) || c == '_' || c == '-'
}

/// The replacement made before filtering: `@` and `.` become `_` in a doctl
/// context name; a space becomes `_` in a cluster name.
pub open spec fn substitute(c: char, in_context: bool) -> char {
    if in_context {
        if c == '@' || c == '.' {
            '_'
        } else {
            c
        }
    } else {
        if c == ' ' {
            '_'
        } else {
            c
        }
    }
}

/// A name made safe for a file name: each character replaced as
/// [`substitute`] says, and then only the characters that [`keep_char`]
/// accepts kept, in order.
pub open spec fn sanitize(s: Seq<char>, in_context: bool) -> Seq<char>
    decreases s.len(),
{
    if s.len() == 0 {
        seq![]
    } else {
        let rest = sanitize(s.drop_last(), in_context);
        let c = substitute(s.last(), in_context);
        if keep_char(c) {
            rest.push(c)
        } else {
            rest
        }
    }
}

/// `.yaml`
pub open spec fn yaml_suffix() -> Seq<char> {
    seq!['.', 'y', 'a', 'm', 'l']
}

/// The kubeconfig file name of a cluster: `<safe-context>_<safe-cluster>.yaml`.
pub open spec fn kubeconfig_file_name(doctl_context: Seq<char>, cluster_name: Seq<char>) -> Seq<char> {
    sanitize(doctl_context, true) + seq!['_'] + sanitize(cluster_name, false) + yaml_suffix()
}

/// Where the kubeconfig of a cluster is kept, below a temp directory.
pub open spec fn config_path_of(temp: Seq<char>, c: ClusterView) -> Seq<char> {
    path_join(configs_dir_of(temp), kubeconfig_file_name(c.doctl_context, c.name))
}

fn sanitize_part(s: &str, in_context: bool) -> (r: String)
    ensures
        r@ == sanitize(s@, in_context),
{
    let mut out = String::new();
    for c in it: s.chars()
        invariant
            it.seq() == s@,
            out@ == sanitize(it.seq().take(it.index() as int), in_context),
    {
        proof {
            assert(it.seq().take(it.index() + 1).drop_last() =~= it.seq().take(it.index() as int));
        }
        let d = if in_context {
            if c == '@' || c == '.' {
                '_'
            } else {
                c
            }
        } else {
            if c == ' ' {
                '_'
            } else {
                c
            }
        };
        if char_is_alphanumeric(d) || d == '_' || d == '-' {
            push_char(&mut out, d);
        }
    }
    proof {
        assert(s@.take(s@.len() as int) =~= s@);
    }
    out
}

/// Generate a kubeconfig file name from doctl context and cluster name.
pub fn config_filename(doctl_context: &str, cluster_name: &str) -> (r: String)
    ensures
        r@ == kubeconfig_file_name(doctl_context@, cluster_name@),
{
    let mut r = sanitize_part(doctl_context, true);
    push_char(&mut r, '_');
    let safe_cluster = sanitize_part(cluster_name, false);
    r.append(safe_cluster.as_str());
    proof {
        reveal_strlit(".yaml");
        assert(".yaml"@ =~= yaml_suffix());
    }
    r.append(".yaml");
    r
}

/// The path of the kubeconfig file of a cluster.
pub fn config_path(dirs: &CacheDirs, cluster: &ClusterInfo) -> (r: String)
    ensures
        r@ == config_path_of(dirs.temp@, cluster@),
{
    let dir = configs_dir(dirs);
    let name = config_filename(cluster.doctl_context.as_str(), cluster.name.as_str());
    join_path(dir.as_str(), name.as_str())
}

/// Every character of a sanitized name is alphanumeric, `_` or `-`.
pub proof fn lemma_sanitized_chars(s: Seq<char>, in_context: bool)
    ensures
        forall|i: int| 0 <= i < sanitize(s, in_context).len() ==> keep_char(#[trigger] sanitize(s, in_context)[i]),
    decreases s.len(),
{
    if s.len() > 0 {
        lemma_sanitized_chars(s.drop_last(), in_context);
        let rest = sanitize(s.drop_last(), in_context);
        let r = sanitize(s, in_context);
        assert forall|i: int| 0 <= i < r.len() implies keep_char(#[trigger] r[i]) by {
            if i < rest.len() {
                assert(r[i] == rest[i]);
            }
        }
    }
}

/// A name made only of alphanumerics, `_` and `-` is already safe and is kept
/// unchanged, character for character.
pub proof fn lemma_sanitize_keeps_safe(t: Seq<char>, in_context: bool)
    requires
        forall|i: int| 0 <= i < t.len() ==> keep_char(#[trigger] t[i]),
    ensures
        sanitize(t, in_context) == t,
    decreases t.len(),
{
    if t.len() > 0 {
        assert forall|i: int| 0 <= i < t.drop_last().len() implies keep_char(#[trigger] t.drop_last()[i]) by {
            assert(t.drop_last()[i] == t[i]);
        }
        lemma_sanitize_keeps_safe(t.drop_last(), in_context);
        assert(keep_char(t[t.len() - 1]));
        assert(t.drop_last().push(t.last()) =~= t);
    }
}

/// Sanitizing is idempotent: a name that was made safe stays as it is.
pub proof fn lemma_sanitize_idempotent(s: Seq<char>, in_context: bool)
    ensures
        sanitize(sanitize(s, in_context), in_context) == sanitize(s, in_context),
{
    lemma_sanitized_chars(s, in_context);
    lemma_sanitize_keeps_safe(sanitize(s, in_context), in_context);
}

/// A kubeconfig file name holds no `/` and ends in `.yaml`, and the file
/// always lies directly inside the configs directory: whatever the doctl
/// context and cluster names hold, the file cannot land anywhere else.
pub proof fn lemma_config_file_stays_in_configs_dir(temp: Seq<char>, c: ClusterView)
    ensures
        forall|i: int| 0 <= i < kubeconfig_file_name(c.doctl_context, c.name).len()
            ==> #[trigger] kubeconfig_file_name(c.doctl_context, c.name)[i] != '/',
        kubeconfig_file_name(c.doctl_context, c.name).len() >= 5,
        kubeconfig_file_name(c.doctl_context, c.name).subrange(
            kubeconfig_file_name(c.doctl_context, c.name).len() - 5,
            kubeconfig_file_name(c.doctl_context, c.name).len() as int,
        ) == yaml_suffix(),
        config_path_of(temp, c) == configs_dir_of(temp) + seq!['/'] + kubeconfig_file_name(c.doctl_context, c.name),
{
    let a = sanitize(c.doctl_context, true);
    let b = sanitize(c.name, false);
    let f = kubeconfig_file_name(c.doctl_context, c.name);
    lemma_sanitized_chars(c.doctl_context, true);
    lemma_sanitized_chars(c.name, false);
    assert forall|i: int| 0 <= i < f.len() implies #[trigger] f[i] != '/' by {
        if i < a.len() {
            assert(f[i] == a[i]);
            assert(keep_char(a[i]));
        } else if i == a.len() {
            assert(f[i] == '_');
        } else if i < a.len() + 1 + b.len() {
            assert(f[i] == b[i - a.len() - 1]);
            assert(keep_char(b[i - a.len() - 1]));
        } else {
            assert(f[i] == yaml_suffix()[i - a.len() - 1 - b.len()]);
        }
    }
    assert(f.subrange(f.len() - 5, f.len() as int) =~= yaml_suffix());
    assert(f[0] != '/');
    let d = configs_dir_of(temp);
    assert(d.len() > 0 && d.last() == 's');
}


/// The position of the first cluster whose kubernetes context name is `name`.
pub open spec fn find_context(clusters: Seq<ClusterView>, name: Seq<char>) -> Option<int>
    decreases clusters.len(),
{
    if clusters.len() == 0 {
        None
    } else if cluster_context_name(clusters[0]) == name {
        Some(0)
    } else {
        match find_context(clusters.drop_first(), name) {
            Some(i) => Some(i + 1),
            None => None,
        }
    }
}

/// [`find_context`] finds the first match, and finds none exactly when no
/// cluster has that context name.
pub proof fn lemma_find_context(clusters: Seq<ClusterView>, name: Seq<char>)
    ensures
        find_context(clusters, name) is None <==> forall|j: int|
            0 <= j < clusters.len() ==> cluster_context_name(#[trigger] clusters[j]) != name,
        find_context(clusters, name) matches Some(i) ==> {
            &&& 0 <= i < clusters.len()
            &&& cluster_context_name(clusters[i]) == name
            &&& forall|j: int| 0 <= j < i ==> cluster_context_name(#[trigger] clusters[j]) != name
        },
    decreases clusters.len(),
{
    if clusters.len() > 0 {
        let rest = clusters.drop_first();
        lemma_find_context(rest, name);
        assert forall|j: int| 0 <= j < rest.len() implies #[trigger] rest[j] == clusters[j + 1] by {}
        if cluster_context_name(clusters[0]) != name {
            assert forall|j: int| 1 <= j < clusters.len() implies #[trigger] clusters[j] == rest[j - 1] by {}
        }
    }
}

/// The position of the first cluster with the given context name, if any.
pub(crate) fn find_cluster(context_name: &str, clusters: &[ClusterInfo]) -> (r: Option<usize>)
    ensures
        match r {
            Some(i) => find_context(cluster_views(clusters@), context_name@) == Some(i as int),
            None => find_context(cluster_views(clusters@), context_name@) is None,
        },
{
    let wanted = context_name.to_owned();
    let ghost cs = cluster_views(clusters@);
    proof {
        lemma_find_context(cs, context_name@);
    }
    let n = clusters.len();
    let mut i: usize = 0;
    while i < n
        invariant
            n == clusters@.len(),
            cs == cluster_views(clusters@),
            wanted@ == context_name@,
            i <= n,
            forall|j: int| 0 <= j < i ==> cluster_context_name(#[trigger] cs[j]) != context_name@,
            find_context(cs, context_name@) is None <==> forall|j: int|
                0 <= j < cs.len() ==> cluster_context_name(#[trigger] cs[j]) != context_name@,
            find_context(cs, context_name@) matches Some(k) ==> {
                &&& 0 <= k < cs.len()
                &&& cluster_context_name(cs[k]) == context_name@
                &&& forall|j: int| 0 <= j < k ==> cluster_context_name(#[trigger] cs[j]) != context_name@
            },
        decreases n - i,
    {
        let name = clusters[i].kube_context_name();
        assert(cs[i as int] == clusters@[i as int]@);
        if name == wanted {
            return Some(i);
        }
        i = i + 1;
    }
    None
}

/// Find the cluster info and config path for a given kube context name: the
/// first cluster whose context name matches, and the path of its kubeconfig.
pub fn find_config_for_context(
    context_name: &str,
    clusters: &[ClusterInfo],
    dirs: &CacheDirs,
) -> (r: Option<(String, ClusterInfo)>)
    ensures
        match find_context(cluster_views(clusters@), context_name@) {
            None => r is None,
            Some(i) => r matches Some((path, cluster)) && cluster@ == clusters@[i]@ && path@
                == config_path_of(dirs.temp@, clusters@[i]@),
        },
{
    match find_cluster(context_name, clusters) {
        None => None,
        Some(i) => {
            proof {
                lemma_find_context(cluster_views(clusters@), context_name@);
            }
            let cluster = clusters[i].clone();
            let path = config_path(dirs, &cluster);
            Some((path, cluster))
        },
    }
}

/// The metadata envelope for a list of clusters: the current schema version
/// and copies of the clusters (what is written to disk).
pub fn metadata_to_save(clusters: &[ClusterInfo]) -> (r: Metadata)
    ensures
        r.version == METADATA_VERSION,
        cluster_views(r.clusters@) == cluster_views(clusters@),
{
    let mut copies: Vec<ClusterInfo> = Vec::new();
    let n = clusters.len();
    for i in 0..n
        invariant
            n == clusters@.len(),
            copies@.len() == i,
            forall|j: int| 0 <= j < i ==> #[trigger] copies@[j]@ == clusters@[j]@,
    {
        copies.push(clusters[i].clone());
    }
    assert(cluster_views(copies@) =~= cluster_views(clusters@));
    Metadata { version: METADATA_VERSION, clusters: copies }
}

/// What reading a parsed metadata envelope yields: its clusters when it has the
/// current schema version, nothing when it is stale.
pub open spec fn loaded_clusters(version: u32, clusters: Seq<ClusterView>) -> Option<Seq<ClusterView>> {
    if version == METADATA_VERSION {
        Some(clusters)
    } else {
        None
    }
}

/// Accepts cached metadata that parsed: returns `None` if the schema version
/// doesn't match (stale metadata is then discarded), else its clusters.
pub fn accept_metadata(metadata: Metadata) -> (r: Option<Vec<ClusterInfo>>)
    ensures
        match loaded_clusters(metadata.version, cluster_views(metadata.clusters@)) {
            Some(cs) => r matches Some(v) && cluster_views(v@) == cs,
            None => r is None,
        },
{
    if metadata.version != METADATA_VERSION {
        return None;
    }
    Some(metadata.clusters)
}

/// Metadata that kuber saved loads back as the clusters it saved: the schema
/// version it writes is the one it accepts.
pub proof fn lemma_saved_metadata_loads_back(saved: Metadata, clusters: Seq<ClusterView>)
    requires
        saved.version == METADATA_VERSION,
        cluster_views(saved.clusters@) == clusters,
    ensures
        loaded_clusters(saved.version, cluster_views(saved.clusters@)) == Some(clusters),
{
}


/// Kubeconfigs are ephemeral: the kubeconfig of every cluster lies in
/// `/tmp/kuber-<uid>/configs/`, under a file name without `/`.
pub proof fn lemma_configs_are_ephemeral(uid: u32, c: ClusterView)
    ensures
        config_path_of(temp_dir_for(uid), c) == temp_dir_for(uid) + seq!['/'] + configs_name() + seq!['/']
            + kubeconfig_file_name(c.doctl_context, c.name),
        temp_dir_for(uid).take(5) == seq!['/', 't', 'm', 'p', '/'],
{
    let t = temp_dir_for(uid);
    let f = kubeconfig_file_name(c.doctl_context, c.name);
    lemma_temp_dir_shape(uid);
    lemma_config_file_stays_in_configs_dir(t, c);
    assert(configs_dir_of(t) == t + seq!['/'] + configs_name());
    assert(config_path_of(t, c) =~= t + seq!['/'] + configs_name() + seq!['/'] + f);
}

proof fn lemma_temp_dir_shape(uid: u32)
    ensures
        temp_dir_for(uid).len() > 0,
        temp_dir_for(uid).last() != '/',
        temp_dir_for(uid).take(5) == seq!['/', 't', 'm', 'p', '/'],
{
    let t = temp_dir_for(uid);
    let d = decimal(uid as nat);
    lemma_decimal_nonempty(uid as nat);
    lemma_decimal_digits(uid as nat);
    assert(t.last() == d[d.len() - 1]);
    assert(t.take(5) =~= seq!['/', 't', 'm', 'p', '/']);
}

proof fn lemma_decimal_nonempty(n: nat)
    ensures
        decimal(n).len() > 0,
    decreases n,
{
    if n >= 10 {
        lemma_decimal_nonempty(n / 10);
    }
}

proof fn lemma_decimal_digits(n: nat)
    ensures
        forall|i: int| 0 <= i < decimal(n).len() ==> '0' <= #[trigger] decimal(n)[i] <= '9',
    decreases n,
{
    if n >= 10 {
        lemma_decimal_digits(n / 10);
        let d = decimal(n);
        let p = decimal(n / 10);
        assert forall|i: int| 0 <= i < d.len() implies '0' <= #[trigger] d[i] <= '9' by {
            if i < p.len() {
                assert(d[i] == p[i]);
            }
        }
    }
}

} // verus!
