//! The doctl side: raw cluster records, their conversion into [`ClusterInfo`],
//! the command lines handed to doctl and the reading of its answers.
use vstd::prelude::*;
use vstd::utf8::*;
use crate::cluster::{AuthContext, ClusterInfo, ClusterView, NodePoolInfo, NodePoolView, cluster_views, pool_views};

verus! {

/// A node pool as returned by doctl.
#[derive(Debug)]
pub struct DoctlNodePool {
    pub name: String,
    pub size: String,
    pub count: u32,
    pub min_nodes: Option<u32>,
    pub max_nodes: Option<u32>,
}

/// The status record of a cluster as returned by doctl.
#[derive(Debug)]
pub struct DoctlClusterStatus {
    pub state: String,
}

/// Raw cluster data as returned by `doctl kubernetes cluster list`.
#[derive(Debug)]
pub struct DoctlCluster {
    pub id: String,
    pub name: String,
    pub region: String,
    pub version: String,
    pub status: DoctlClusterStatus,
    pub ha: bool,
    pub node_pools: Vec<DoctlNodePool>,
    pub created_at: String,
}

impl View for DoctlNodePool {
    type V = NodePoolView;

    open spec fn view(&self) -> NodePoolView {
        NodePoolView {
            name: self.name@,
            size: self.size@,
            count: self.count,
            min_nodes: self.min_nodes,
            max_nodes: self.max_nodes,
        }
    }
}

/// The node pool summaries of raw doctl node pools.
pub open spec fn raw_pool_views(pools: Seq<DoctlNodePool>) -> Seq<NodePoolView> {
    pools.map_values(|p: DoctlNodePool| p@)
}

/// The cluster that a raw doctl record becomes under a doctl auth context.
pub open spec fn cluster_from_doctl(raw: DoctlCluster, doctl_context: Seq<char>) -> ClusterView {
    ClusterView {
        id: raw.id@,
        name: raw.name@,
        region: raw.region@,
        doctl_context: doctl_context,
        version: raw.version@,
        status: raw.status.state@,
        ha: raw.ha,
        node_pools: raw_pool_views(raw.node_pools@),
        created_at: raw.created_at@,
    }
}

/// The clusters that raw doctl records become under a doctl auth context.
pub open spec fn clusters_from_doctl_spec(raw: Seq<DoctlCluster>, doctl_context: Seq<char>) -> Seq<ClusterView> {
    raw.map_values(|c: DoctlCluster| cluster_from_doctl(c, doctl_context))
}

/// Converting doctl's list keeps one cluster per raw record, in order, and
/// each converted cluster carries exactly the raw record's id, name, region,
/// version, status state, HA flag, creation time and node pools (each pool with
/// its name, size, count and bounds), under the auth context it was listed for.
pub proof fn lemma_conversion_keeps_fields(raw: Seq<DoctlCluster>, doctl_context: Seq<char>)
    ensures
        clusters_from_doctl_spec(raw, doctl_context).len() == raw.len(),
        forall|i: int| 0 <= i < raw.len() ==> {
            let c = #[trigger] clusters_from_doctl_spec(raw, doctl_context)[i];
            let r = raw[i];
            &&& c.id == r.id@
            &&& c.name == r.name@
            &&& c.region == r.region@
            &&& c.doctl_context == doctl_context
            &&& c.version == r.version@
            &&& c.status == r.status.state@
            &&& c.ha == r.ha
            &&& c.created_at == r.created_at@
            &&& c.node_pools.len() == r.node_pools@.len()
            &&& forall|k: int| 0 <= k < r.node_pools@.len() ==> {
                &&& (#[trigger] c.node_pools[k]).name == r.node_pools@[k].name@
                &&& c.node_pools[k].size == r.node_pools@[k].size@
                &&& c.node_pools[k].count == r.node_pools@[k].count
                &&& c.node_pools[k].min_nodes == r.node_pools@[k].min_nodes
                &&& c.node_pools[k].max_nodes == r.node_pools@[k].max_nodes
            }
        },
{
}

/// Turns a raw doctl node pool into the summary kept in metadata.
pub fn node_pool_from_doctl(raw: DoctlNodePool) -> (r: NodePoolInfo)
    ensures
        r@ == raw@,
{
    NodePoolInfo {
        name: raw.name,
        size: raw.size,
        count: raw.count,
        min_nodes: raw.min_nodes,
        max_nodes: raw.max_nodes,
    }
}

/// Turns a raw doctl cluster into a [`ClusterInfo`] that remembers the doctl
/// auth context it was listed under.
pub fn cluster_info_from_doctl(raw: DoctlCluster, doctl_context: &str) -> (r: ClusterInfo)
    ensures
        r@ == cluster_from_doctl(raw, doctl_context@),
{
    let ghost raw0 = raw;
    let mut pools: Vec<NodePoolInfo> = Vec::new();
    for p in it: raw.node_pools
        invariant
            it.seq() == raw0.node_pools@,
            pool_views(pools@) =~= raw_pool_views(it.seq().take(it.index() as int)),
    {
        let ghost before = pools@;
        let ghost done = it.seq().take(it.index() as int);
        proof {
            assert(it.seq().take(it.index() + 1) =~= done.push(p));
            assert(raw_pool_views(done.push(p)) =~= raw_pool_views(done).push(p@));
        }
        let q = node_pool_from_doctl(p);
        pools.push(q);
        proof {
            assert(pool_views(pools@) =~= pool_views(before).push(q@));
        }
    }
    proof {
        assert(raw0.node_pools@.take(raw0.node_pools@.len() as int) =~= raw0.node_pools@);
    }
    ClusterInfo {
        id: raw.id,
        name: raw.name,
        region: raw.region,
        doctl_context: doctl_context.to_owned(),
        version: raw.version,
        status: raw.status.state,
        ha: raw.ha,
        node_pools: pools,
        created_at: raw.created_at,
    }
}

/// Turns the clusters that `doctl kubernetes cluster list` reported for one
/// auth context into [`ClusterInfo`] records, in the order doctl listed them.
pub fn clusters_from_doctl(raw: Vec<DoctlCluster>, doctl_context: &str) -> (r: Vec<ClusterInfo>)
    ensures
        cluster_views(r@) == clusters_from_doctl_spec(raw@, doctl_context@),
{
    let ghost raw0 = raw@;
    let mut out: Vec<ClusterInfo> = Vec::new();
    for c in it: raw
        invariant
            it.seq() == raw0,
            cluster_views(out@) =~= clusters_from_doctl_spec(it.seq().take(it.index() as int), doctl_context@),
    {
        let ghost before = out@;
        let ghost done = it.seq().take(it.index() as int);
        proof {
            assert(it.seq().take(it.index() + 1) =~= done.push(c));
            assert(clusters_from_doctl_spec(done.push(c), doctl_context@)
                =~= clusters_from_doctl_spec(done, doctl_context@).push(cluster_from_doctl(c, doctl_context@)));
        }
        let info = cluster_info_from_doctl(c, doctl_context);
        out.push(info);
        proof {
            assert(cluster_views(out@) =~= cluster_views(before).push(info@));
        }
    }
    proof {
        assert(raw0.take(raw0.len() as int) =~= raw0);
    }
    out
}


/// The names of a sequence of auth contexts.
pub open spec fn auth_names(contexts: Seq<AuthContext>) -> Seq<Seq<char>> {
    contexts.map_values(|c: AuthContext| c.name@)
}

/// The name of the placeholder context that doctl always lists.
pub open spec fn default_context_name() -> Seq<char> {
    seq!['d', 'e', 'f', 'a', 'u', 'l', 't']
}

/// The context names without the `default` placeholder, order kept.
pub open spec fn without_default(names: Seq<Seq<char>>) -> Seq<Seq<char>>
    decreases names.len(),
{
    if names.len() == 0 {
        seq![]
    } else {
        let rest = without_default(names.drop_last());
        if names.last() == default_context_name() {
            rest
        } else {
            rest.push(names.last())
        }
    }
}

/// How often a name occurs in a sequence of names.
pub open spec fn occurrences(names: Seq<Seq<char>>, x: Seq<char>) -> nat
    decreases names.len(),
{
    if names.len() == 0 {
        0
    } else {
        occurrences(names.drop_last(), x) + if names.last() == x {
            1nat
        } else {
            0nat
        }
    }
}

/// Dropping the placeholder keeps exactly the contexts not named `default`,
/// in their order: it is the filter by `name != "default"`, so every other name
/// occurs as often as in the input and `default` not at all.
pub proof fn lemma_without_default(names: Seq<Seq<char>>)
    ensures
        without_default(names) == names.filter(|n: Seq<char>| n != default_context_name()),
        forall|x: Seq<char>| x != default_context_name() ==> occurrences(without_default(names), x) == occurrences(names, x),
        occurrences(without_default(names), default_context_name()) == 0,
    decreases names.len(),
{
    reveal(Seq::filter);
    if names.len() > 0 {
        lemma_without_default(names.drop_last());
        let rest = without_default(names.drop_last());
        if names.last() != default_context_name() {
            assert(without_default(names).drop_last() =~= rest);
        }
        assert forall|x: Seq<char>| x != default_context_name() implies occurrences(without_default(names), x)
            == occurrences(names, x) by {
            assert(occurrences(rest, x) == occurrences(names.drop_last(), x));
            if names.last() != default_context_name() {
                assert(without_default(names) == rest.push(names.last()));
                assert(occurrences(rest.push(names.last()), x) == occurrences(rest, x) + if names.last() == x {
                    1nat
                } else {
                    0nat
                });
            } else {
                assert(without_default(names) == rest);
            }
        }
    }
}

/// Drops the `default` placeholder from the contexts that `doctl auth list`
/// reported, keeping the order of the others.
pub fn filter_auth_contexts(contexts: Vec<AuthContext>) -> (r: Vec<AuthContext>)
    ensures
        auth_names(r@) == without_default(auth_names(contexts@)),
{
    let ghost all = contexts@;
    let placeholder = String::from_str("default");
    proof {
        reveal_strlit("default");
        assert(placeholder@ =~= default_context_name());
    }
    let mut out: Vec<AuthContext> = Vec::new();
    for c in it: contexts
        invariant
            it.seq() == all,
            placeholder@ == default_context_name(),
            auth_names(out@) =~= without_default(auth_names(it.seq().take(it.index() as int))),
    {
        let ghost before = out@;
        let ghost done = it.seq().take(it.index() as int);
        proof {
            assert(it.seq().take(it.index() + 1) =~= done.push(c));
            assert(auth_names(done.push(c)) =~= auth_names(done).push(c.name@));
            assert(auth_names(done.push(c)).drop_last() =~= auth_names(done));
        }
        if c.name != placeholder {
            out.push(c);
            proof {
                assert(auth_names(out@) =~= auth_names(before).push(c.name@));
            }
        }
    }
    proof {
        assert(all.take(all.len() as int) =~= all);
    }
    out
}

/// The views of a sequence of argument strings.
pub open spec fn arg_views(args: Seq<String>) -> Seq<Seq<char>> {
    args.map_values(|a: String| a@)
}

/// `doctl auth list -o json`.
pub open spec fn auth_list_args_spec() -> Seq<Seq<char>> {
    seq!["auth"@, "list"@, "-o"@, "json"@]
}

/// `doctl kubernetes cluster list --context <context> -o json`.
pub open spec fn list_clusters_args_spec(doctl_context: Seq<char>) -> Seq<Seq<char>> {
    seq!["kubernetes"@, "cluster"@, "list"@, "--context"@, doctl_context, "-o"@, "json"@]
}

/// `doctl kubernetes cluster kubeconfig show <cluster-id> --context <context>`.
pub open spec fn download_kubeconfig_args_spec(doctl_context: Seq<char>, cluster_id: Seq<char>) -> Seq<Seq<char>> {
    seq!["kubernetes"@, "cluster"@, "kubeconfig"@, "show"@, cluster_id, "--context"@, doctl_context]
}

fn arg(s: &str) -> (r: String)
    ensures
        r@ == s@,
{
    String::from_str(s)
}

/// The arguments of the doctl call that lists the auth contexts.
pub fn auth_list_args() -> (r: Vec<String>)
    ensures
        arg_views(r@) == auth_list_args_spec(),
{
    let mut v: Vec<String> = Vec::new();
    v.push(arg("auth"));
    v.push(arg("list"));
    v.push(arg("-o"));
    v.push(arg("json"));
    assert(arg_views(v@) =~= auth_list_args_spec());
    v
}

/// The arguments of the doctl call that lists the clusters of one auth
/// context. The context is named with `--context`, so no global auth state of
/// doctl is changed.
pub fn list_clusters_args(doctl_context: &str) -> (r: Vec<String>)
    ensures
        arg_views(r@) == list_clusters_args_spec(doctl_context@),
{
    let mut v: Vec<String> = Vec::new();
    v.push(arg("kubernetes"));
    v.push(arg("cluster"));
    v.push(arg("list"));
    v.push(arg("--context"));
    v.push(arg(doctl_context));
    v.push(arg("-o"));
    v.push(arg("json"));
    assert(arg_views(v@) =~= list_clusters_args_spec(doctl_context@));
    v
}

/// The arguments of the doctl call that prints the kubeconfig of one cluster.
/// The context is named with `--context`, so no global auth state of doctl is
/// changed.
pub fn download_kubeconfig_args(doctl_context: &str, cluster_id: &str) -> (r: Vec<String>)
    ensures
        arg_views(r@) == download_kubeconfig_args_spec(doctl_context@, cluster_id@),
{
    let mut v: Vec<String> = Vec::new();
    v.push(arg("kubernetes"));
    v.push(arg("cluster"));
    v.push(arg("kubeconfig"));
    v.push(arg("show"));
    v.push(arg(cluster_id));
    v.push(arg("--context"));
    v.push(arg(doctl_context));
    assert(arg_views(v@) =~= download_kubeconfig_args_spec(doctl_context@, cluster_id@));
    v
}

/// Every doctl call names its auth context with `--context` where it concerns a
/// cluster, and none is `doctl auth switch`: no doctl call changes doctl's
/// global auth state.
pub proof fn lemma_doctl_calls_leave_auth_state(doctl_context: Seq<char>, cluster_id: Seq<char>)
    ensures
        ({
            let l = list_clusters_args_spec(doctl_context);
            exists|k: int| 1 <= k < l.len() && l[k - 1] == "--context"@ && #[trigger] l[k] == doctl_context
        }),
        ({
            let d = download_kubeconfig_args_spec(doctl_context, cluster_id);
            exists|k: int| 1 <= k < d.len() && d[k - 1] == "--context"@ && #[trigger] d[k] == doctl_context
        }),
        !(auth_list_args_spec()[0] == "auth"@ && auth_list_args_spec()[1] == "switch"@),
        list_clusters_args_spec(doctl_context)[0] != "auth"@,
        download_kubeconfig_args_spec(doctl_context, cluster_id)[0] != "auth"@,
{
    reveal_strlit("list");
    reveal_strlit("switch");
    reveal_strlit("auth");
    reveal_strlit("kubernetes");
    assert("list"@.len() == 4 && "switch"@.len() == 6);
    assert("kubernetes"@.len() == 10 && "auth"@.len() == 4);
    assert(auth_list_args_spec()[1] == "list"@);
    assert(list_clusters_args_spec(doctl_context)[0] == "kubernetes"@);
    assert(download_kubeconfig_args_spec(doctl_context, cluster_id)[0] == "kubernetes"@);
    let l = list_clusters_args_spec(doctl_context);
    assert(l[3] == "--context"@ && l[4] == doctl_context);
    let d = download_kubeconfig_args_spec(doctl_context, cluster_id);
    assert(d[5] == "--context"@ && d[6] == doctl_context);
}

/// Why a doctl call gave no usable answer.
#[derive(Debug)]
pub enum DoctlError {
    /// doctl exited unsuccessfully; what it wrote to stderr.
    Failed { stderr: Vec<u8> },
    /// The kubeconfig that doctl printed is not valid UTF-8.
    NotUtf8,
}

/// Calls `String::from_utf8`: `Some` exactly when the bytes are valid UTF-8,
/// and then a string whose characters are the ones those bytes encode.
#[verifier::external_body]
fn string_from_utf8(bytes: Vec<u8>) -> (r: Option<String>)
    ensures
        r is Some <==> valid_utf8(bytes@),
        r matches Some(s) ==> s@ == decode_utf8(bytes@),
{
    String::from_utf8(bytes).ok()
}

/// Reads the kubeconfig from the answer of
/// `doctl kubernetes cluster kubeconfig show`: a failed call is an error that
/// carries doctl's stderr; otherwise stdout must be valid UTF-8 and is the
/// kubeconfig.
pub fn kubeconfig_from_output(success: bool, stdout: Vec<u8>, stderr: Vec<u8>) -> (r: Result<String, DoctlError>)
    ensures
        !success ==> (r matches Err(DoctlError::Failed { stderr: e }) && e@ == stderr@),
        success && !valid_utf8(stdout@) ==> r matches Err(DoctlError::NotUtf8),
        success && valid_utf8(stdout@) ==> (r matches Ok(s) && s@ == decode_utf8(stdout@)),
{
    if !success {
        return Err(DoctlError::Failed { stderr });
    }
    match string_from_utf8(stdout) {
        Some(s) => Ok(s),
        None => Err(DoctlError::NotUtf8),
    }
}

} // verus!
