//! Cluster data as doctl reports it and as the metadata cache keeps it.
use vstd::prelude::*;
use crate::text::push_char;

verus! {

/// A doctl auth context, as listed by `doctl auth list`.
#[derive(Debug)]
pub struct AuthContext {
    pub name: String,
}

/// Node pool summary stored in metadata.
#[derive(Debug)]
pub struct NodePoolInfo {
    pub name: String,
    pub size: String,
    pub count: u32,
    pub min_nodes: Option<u32>,
    pub max_nodes: Option<u32>,
}

/// The mathematical value of a node pool.
pub struct NodePoolView {
    pub name: Seq<char>,
    pub size: Seq<char>,
    pub count: u32,
    pub min_nodes: Option<u32>,
    pub max_nodes: Option<u32>,
}

impl View for NodePoolInfo {
    type V = NodePoolView;

    open spec fn view(&self) -> NodePoolView {
        NodePoolView {
            name: self.name@,
            size: self.size@,
            count: self.count,
            min_nodes: self.min_nodes,
            max_nodes: self.max_nodes,
        }
    }
}

/// Cluster info enriched with the doctl auth context it belongs to.
///
/// The API server endpoint is deliberately not part of it, so that no server
/// URL is ever written to disk; the cluster id is kept because fetching a
/// kubeconfig needs it.
#[derive(Debug)]
pub struct ClusterInfo {
    pub id: String,
    pub name: String,
    pub region: String,
    pub doctl_context: String,
    pub version: String,
    pub status: String,
    pub ha: bool,
    pub node_pools: Vec<NodePoolInfo>,
    pub created_at: String,
}

/// The mathematical value of a cluster.
pub struct ClusterView {
    pub id: Seq<char>,
    pub name: Seq<char>,
    pub region: Seq<char>,
    pub doctl_context: Seq<char>,
    pub version: Seq<char>,
    pub status: Seq<char>,
    pub ha: bool,
    pub node_pools: Seq<NodePoolView>,
    pub created_at: Seq<char>,
}

/// The views of a sequence of node pools.
pub open spec fn pool_views(pools: Seq<NodePoolInfo>) -> Seq<NodePoolView> {
    pools.map_values(|p: NodePoolInfo| p@)
}

impl View for ClusterInfo {
    type V = ClusterView;

    open spec fn view(&self) -> ClusterView {
        ClusterView {
            id: self.id@,
            name: self.name@,
            region: self.region@,
            doctl_context: self.doctl_context@,
            version: self.version@,
            status: self.status@,
            ha: self.ha,
            node_pools: pool_views(self.node_pools@),
            created_at: self.created_at@,
        }
    }
}

/// The views of a sequence of clusters.
pub open spec fn cluster_views(clusters: Seq<ClusterInfo>) -> Seq<ClusterView> {
    clusters.map_values(|c: ClusterInfo| c@)
}

/// The kubernetes context name that doctl writes into a cluster's kubeconfig:
/// `do-<region>-<cluster-name>`.
pub open spec fn context_name(region: Seq<char>, name: Seq<char>) -> Seq<char> {
    seq!['d', 'o', '-'] + region + seq!['-'] + name
}

/// The kubernetes context name of a cluster.
pub open spec fn cluster_context_name(c: ClusterView) -> Seq<char> {
    context_name(c.region, c.name)
}

impl Clone for NodePoolInfo {
    fn clone(&self) -> (r: Self)
        ensures
            r@ == self@,
    {
        NodePoolInfo {
            name: self.name.clone(),
            size: self.size.clone(),
            count: self.count,
            min_nodes: self.min_nodes,
            max_nodes: self.max_nodes,
        }
    }
}

impl Clone for ClusterInfo {
    fn clone(&self) -> (r: Self)
        ensures
            r@ == self@,
    {
        let mut pools: Vec<NodePoolInfo> = Vec::new();
        let n = self.node_pools.len();
        for i in 0..n
            invariant
                n == self.node_pools@.len(),
                pools@.len() == i,
                forall|j: int| 0 <= j < i ==> #[trigger] pools@[j]@ == self.node_pools@[j]@,
        {
            pools.push(self.node_pools[i].clone());
        }
        assert(pool_views(pools@) =~= pool_views(self.node_pools@));
        ClusterInfo {
            id: self.id.clone(),
            name: self.name.clone(),
            region: self.region.clone(),
            doctl_context: self.doctl_context.clone(),
            version: self.version.clone(),
            status: self.status.clone(),
            ha: self.ha,
            node_pools: pools,
            created_at: self.created_at.clone(),
        }
    }
}

impl ClusterInfo {
    /// The kubernetes context name as it appears in the kubeconfig from doctl.
    /// doctl generates names like `do-<region>-<cluster-name>`.
    pub fn kube_context_name(&self) -> (r: String)
        ensures
            r@ == cluster_context_name(self@),
    {
        let mut s = String::new();
        push_char(&mut s, 'd');
        push_char(&mut s, 'o');
        push_char(&mut s, '-');
        s.append(self.region.as_str());
        push_char(&mut s, '-');
        s.append(self.name.as_str());
        proof {
            assert(s@ =~= context_name(self.region@, self.name@));
        }
        s
    }
}

} // verus!
