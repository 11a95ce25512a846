//! The interactive picker: which context names it lists, how a background sync
//! merges newly discovered clusters into the known ones, and what the preview
//! pane says about the highlighted context.
use vstd::prelude::*;
use crate::cache::{find_cluster, find_context, lemma_find_context};
use crate::cluster::{ClusterInfo, ClusterView, NodePoolInfo, NodePoolView, cluster_context_name, cluster_views, pool_views};
use crate::text::{decimal, push_decimal};

verus! {

/// The views of a sequence of strings.
pub open spec fn string_views(v: Seq<String>) -> Seq<Seq<char>> {
    v.map_values(|s: String| s@)
}

/// The kubernetes context names of a sequence of clusters, in order.
pub open spec fn context_names_of(cs: Seq<ClusterView>) -> Seq<Seq<char>> {
    cs.map_values(|c: ClusterView| cluster_context_name(c))
}

/// The distinct elements of a sequence, each at its first occurrence.
pub open spec fn distinct(s: Seq<Seq<char>>) -> Seq<Seq<char>>
    decreases s.len(),
{
    if s.len() == 0 {
        seq![]
    } else {
        let prev = distinct(s.drop_last());
        if prev.contains(s.last()) {
            prev
        } else {
            prev.push(s.last())
        }
    }
}

/// Whether `name` occurs among the strings.
pub fn contains_name(names: &[String], name: &String) -> (r: bool)
    ensures
        r == string_views(names@).contains(name@),
{
    let n = names.len();
    for i in 0..n
        invariant
            n == names@.len(),
            forall|j: int| 0 <= j < i ==> names@[j]@ != name@,
    {
        if names[i] == *name {
            assert(string_views(names@)[i as int] == name@);
            return true;
        }
    }
    proof {
        if string_views(names@).contains(name@) {
            let k = choose|k: int| 0 <= k < string_views(names@).len() && string_views(names@)[k] == name@;
            assert(names@[k]@ == name@);
        }
    }
    false
}

/// The context names the picker lists for the cached clusters, each once, in
/// the order of their first cluster.
pub fn context_names(clusters: &[ClusterInfo]) -> (r: Vec<String>)
    ensures
        string_views(r@) == distinct(context_names_of(cluster_views(clusters@))),
{
    let ghost names = context_names_of(cluster_views(clusters@));
    let mut out: Vec<String> = Vec::new();
    let n = clusters.len();
    for i in 0..n
        invariant
            n == clusters@.len(),
            names == context_names_of(cluster_views(clusters@)),
            string_views(out@) == distinct(names.take(i as int)),
    {
        let name = clusters[i].kube_context_name();
        proof {
            assert(names.take(i + 1).drop_last() =~= names.take(i as int));
            assert(names.take(i + 1).last() == name@);
        }
        let ghost before = out@;
        if !contains_name(out.as_slice(), &name) {
            out.push(name);
            proof {
                assert(string_views(out@) =~= string_views(before).push(names[i as int]));
            }
        }
    }
    proof {
        assert(names.take(n as int) =~= names);
    }
    out
}

/// The names the picker lists hold each name once, and exactly the context
/// names of the cached clusters.
pub proof fn lemma_distinct(s: Seq<Seq<char>>)
    ensures
        distinct(s).no_duplicates(),
        forall|x: Seq<char>| distinct(s).contains(x) <==> s.contains(x),
    decreases s.len(),
{
    if s.len() > 0 {
        let prev = distinct(s.drop_last());
        lemma_distinct(s.drop_last());
        assert forall|x: Seq<char>| distinct(s).contains(x) <==> s.contains(x) by {
            let l = s.last();
            let d = s.drop_last();
            assert(s =~= d.push(l));
            assert(s.contains(x) <==> (d.contains(x) || x == l)) by {
                if s.contains(x) {
                    let k = choose|k: int| 0 <= k < s.len() && s[k] == x;
                    if k < s.len() - 1 {
                        assert(d[k] == x);
                    }
                }
                if d.contains(x) {
                    let k = choose|k: int| 0 <= k < d.len() && d[k] == x;
                    assert(s[k] == x);
                }
                if x == l {
                    assert(s[s.len() - 1] == x);
                }
            }
            if !prev.contains(l) {
                let q = prev.push(l);
                assert(q.contains(x) <==> (prev.contains(x) || x == l)) by {
                    if q.contains(x) {
                        let k = choose|k: int| 0 <= k < q.len() && q[k] == x;
                        if k < prev.len() {
                            assert(prev[k] == x);
                        }
                    }
                    if prev.contains(x) {
                        let k = choose|k: int| 0 <= k < prev.len() && prev[k] == x;
                        assert(q[k] == x);
                    }
                    if x == l {
                        assert(q[prev.len() as int] == x);
                    }
                }
            }
        }
    }
}


/// The known clusters after a background sync: each freshly discovered
/// cluster, in discovery order, is appended when its context name is neither
/// among the names the picker already shows nor among the known clusters.
pub open spec fn merged(known: Seq<ClusterView>, shown: Seq<Seq<char>>, fresh: Seq<ClusterView>) -> Seq<ClusterView>
    decreases fresh.len(),
{
    if fresh.len() == 0 {
        known
    } else {
        let prev = merged(known, shown, fresh.drop_last());
        let name = cluster_context_name(fresh.last());
        if !shown.contains(name) && !context_names_of(prev).contains(name) {
            prev.push(fresh.last())
        } else {
            prev
        }
    }
}

/// Whether some known cluster has the given context name.
fn known_context(known: &Vec<ClusterInfo>, name: &String) -> (r: bool)
    ensures
        r == context_names_of(cluster_views(known@)).contains(name@),
{
    let ghost names = context_names_of(cluster_views(known@));
    let n = known.len();
    for i in 0..n
        invariant
            n == known@.len(),
            names == context_names_of(cluster_views(known@)),
            forall|j: int| 0 <= j < i ==> names[j] != name@,
    {
        if known[i].kube_context_name() == *name {
            assert(names[i as int] == name@);
            return true;
        }
    }
    false
}

/// Merges freshly discovered clusters into the known ones (the background
/// sync of the picker): a cluster whose context name the picker already shows
/// or that is already known is skipped, any other is appended. Returns the
/// context names of the appended clusters, in order: they are what the picker
/// gains, and metadata needs saving exactly when there is at least one.
pub fn merge_discovered(known: &mut Vec<ClusterInfo>, shown: &[String], fresh: Vec<ClusterInfo>) -> (added: Vec<String>)
    ensures
        cluster_views(final(known)@) == merged(cluster_views(old(known)@), string_views(shown@), cluster_views(fresh@)),
        string_views(added@) == context_names_of(cluster_views(final(known)@).skip(old(known)@.len() as int)),
{
    let ghost start = cluster_views(known@);
    let ghost start_len = known@.len();
    let ghost all_fresh = fresh@;
    let mut added: Vec<String> = Vec::new();
    proof {
        assert(cluster_views(all_fresh).take(0) =~= Seq::<ClusterView>::empty());
        assert(cluster_views(known@).skip(start_len as int) =~= Seq::<ClusterView>::empty());
        assert(string_views(added@) =~= context_names_of(Seq::<ClusterView>::empty()));
    }
    for c in it: fresh
        invariant
            it.seq() == all_fresh,
            start_len == start.len(),
            known@.len() >= start_len,
            cluster_views(known@) == merged(start, string_views(shown@), cluster_views(it.seq().take(it.index() as int))),
            string_views(added@) == context_names_of(cluster_views(known@).skip(start_len as int)),
    {
        let ghost done = it.seq().take(it.index() as int);
        let ghost before = known@;
        let ghost before_added = added@;
        proof {
            assert(cluster_views(it.seq().take(it.index() + 1)) =~= cluster_views(done).push(c@));
            assert(cluster_views(done.push(c)).drop_last() =~= cluster_views(done));
            assert(it.seq().take(it.index() + 1) =~= done.push(c));
        }
        let name = c.kube_context_name();
        if !contains_name(shown, &name) && !known_context(known, &name) {
            let ghost cv = c@;
            known.push(c);
            added.push(name);
            proof {
                assert(cluster_views(known@) =~= cluster_views(before).push(cv));
                assert(cluster_views(known@).skip(start_len as int) =~= cluster_views(before).skip(start_len as int).push(cv));
                assert(string_views(added@) =~= string_views(before_added).push(cluster_context_name(cv)));
            }
        }
    }
    proof {
        assert(all_fresh.take(all_fresh.len() as int) =~= all_fresh);
    }
    added
}


/// What a background sync guarantees: the clusters known before stay first
/// and unchanged; every discovered cluster is afterwards shown or known under
/// its context name; every appended cluster was discovered, is not shown, and
/// its context name occurs nowhere before it; and a list of known clusters
/// whose context names were distinct keeps them distinct.
pub proof fn lemma_merge(known: Seq<ClusterView>, shown: Seq<Seq<char>>, fresh: Seq<ClusterView>)
    ensures
        merged(known, shown, fresh).len() >= known.len(),
        merged(known, shown, fresh).take(known.len() as int) == known,
        forall|i: int| 0 <= i < fresh.len() ==> shown.contains(cluster_context_name(#[trigger] fresh[i]))
            || context_names_of(merged(known, shown, fresh)).contains(cluster_context_name(fresh[i])),
        forall|k: int| known.len() <= k < merged(known, shown, fresh).len() ==> {
            &&& fresh.contains(#[trigger] merged(known, shown, fresh)[k])
            &&& !shown.contains(cluster_context_name(merged(known, shown, fresh)[k]))
            &&& forall|j: int| 0 <= j < k ==> cluster_context_name(#[trigger] merged(known, shown, fresh)[j])
                != cluster_context_name(merged(known, shown, fresh)[k])
        },
        context_names_of(known).no_duplicates() ==> context_names_of(merged(known, shown, fresh)).no_duplicates(),
    decreases fresh.len(),
{
    broadcast use vstd::seq_lib::lemma_seq_contains_after_push;
    let m = merged(known, shown, fresh);
    if fresh.len() == 0 {
        assert(known.take(known.len() as int) =~= known);
    } else {
        let d = fresh.drop_last();
        let prev = merged(known, shown, d);
        lemma_merge(known, shown, d);
        let c = fresh.last();
        let name = cluster_context_name(c);
        let appended = !shown.contains(name) && !context_names_of(prev).contains(name);
        assert(forall|i: int| 0 <= i < d.len() ==> #[trigger] d[i] == fresh[i]);
        assert(forall|i: int| 0 <= i < prev.len() ==> #[trigger] context_names_of(prev)[i] == cluster_context_name(prev[i]));
        assert(forall|i: int| 0 <= i < m.len() ==> #[trigger] context_names_of(m)[i] == cluster_context_name(m[i]));
        if appended {
            assert(m =~= prev.push(c));
            assert(context_names_of(m) =~= context_names_of(prev).push(name));
            assert(m.take(known.len() as int) =~= prev.take(known.len() as int));
            assert forall|k: int| known.len() <= k < m.len() implies {
                &&& fresh.contains(#[trigger] m[k])
                &&& !shown.contains(cluster_context_name(m[k]))
                &&& forall|j: int| 0 <= j < k ==> cluster_context_name(#[trigger] m[j]) != cluster_context_name(m[k])
            } by {
                if k < prev.len() {
                    assert(m[k] == prev[k]);
                    assert(d.contains(prev[k]));
                    let w = choose|w: int| 0 <= w < d.len() && d[w] == prev[k];
                    assert(fresh[w] == m[k]);
                    assert forall|j: int| 0 <= j < k implies cluster_context_name(#[trigger] m[j]) != cluster_context_name(m[k]) by {
                        assert(m[j] == prev[j]);
                    }
                } else {
                    assert(m[k] == c);
                    assert(fresh[fresh.len() - 1] == c);
                    assert forall|j: int| 0 <= j < k implies cluster_context_name(#[trigger] m[j]) != cluster_context_name(m[k]) by {
                        assert(m[j] == prev[j]);
                        assert(context_names_of(prev)[j] == cluster_context_name(prev[j]));
                    }
                }
            }
            assert forall|i: int| 0 <= i < fresh.len() implies shown.contains(cluster_context_name(#[trigger] fresh[i]))
                || context_names_of(m).contains(cluster_context_name(fresh[i])) by {
                if i < d.len() {
                    assert(d[i] == fresh[i]);
                } else {
                    assert(context_names_of(m)[prev.len() as int] == name);
                }
            }
            if context_names_of(known).no_duplicates() {
                assert(context_names_of(m).no_duplicates());
            }
        } else {
            assert(m == prev);
            assert forall|k: int| known.len() <= k < m.len() implies {
                &&& fresh.contains(#[trigger] m[k])
                &&& !shown.contains(cluster_context_name(m[k]))
                &&& forall|j: int| 0 <= j < k ==> cluster_context_name(#[trigger] m[j]) != cluster_context_name(m[k])
            } by {
                assert(d.contains(prev[k]));
                let w = choose|w: int| 0 <= w < d.len() && d[w] == prev[k];
                assert(fresh[w] == m[k]);
            }
            assert forall|i: int| 0 <= i < fresh.len() implies shown.contains(cluster_context_name(#[trigger] fresh[i]))
                || context_names_of(m).contains(cluster_context_name(fresh[i])) by {
                if i < d.len() {
                    assert(d[i] == fresh[i]);
                }
            }
        }
    }
}

proof fn lemma_merge_nothing_new(known: Seq<ClusterView>, shown: Seq<Seq<char>>, fresh: Seq<ClusterView>)
    requires
        forall|i: int| 0 <= i < fresh.len() ==> shown.contains(cluster_context_name(#[trigger] fresh[i]))
            || context_names_of(known).contains(cluster_context_name(fresh[i])),
    ensures
        merged(known, shown, fresh) == known,
    decreases fresh.len(),
{
    if fresh.len() > 0 {
        let d = fresh.drop_last();
        assert forall|i: int| 0 <= i < d.len() implies shown.contains(cluster_context_name(#[trigger] d[i]))
            || context_names_of(known).contains(cluster_context_name(d[i])) by {
            assert(d[i] == fresh[i]);
        }
        lemma_merge_nothing_new(known, shown, d);
        assert(fresh.last() == fresh[fresh.len() - 1]);
    }
}

/// Syncing the same discovery twice adds nothing the second time.
pub proof fn lemma_merge_idempotent(known: Seq<ClusterView>, shown: Seq<Seq<char>>, fresh: Seq<ClusterView>)
    ensures
        merged(merged(known, shown, fresh), shown, fresh) == merged(known, shown, fresh),
{
    lemma_merge(known, shown, fresh);
    lemma_merge_nothing_new(merged(known, shown, fresh), shown, fresh);
}


/// How a node pool scales: `<min>-<max> nodes (autoscale)` when both bounds
/// are known, else `<count> nodes` when the count is positive, else `unknown`.
pub open spec fn scaling_text(p: NodePoolView) -> Seq<char> {
    match (p.min_nodes, p.max_nodes) {
        (Some(min), Some(max)) => decimal(min as nat) + "-"@ + decimal(max as nat) + " nodes (autoscale)"@,
        _ => if p.count > 0 {
            decimal(p.count as nat) + " nodes"@
        } else {
            "unknown"@
        },
    }
}

/// The preview line of a node pool: `    <name> (<size>, <scaling>)`.
pub open spec fn pool_line(p: NodePoolView) -> Seq<char> {
    "    "@ + p.name + " ("@ + p.size + ", "@ + scaling_text(p) + ")"@
}

/// The preview lines of a node pool list: a blank line, a heading and one line
/// per pool; nothing for no pools.
pub open spec fn pools_section(pools: Seq<NodePoolView>) -> Seq<Seq<char>> {
    if pools.len() == 0 {
        seq![]
    } else {
        seq![seq![], "  Node Pools:"@] + pools.map_values(|p: NodePoolView| pool_line(p))
    }
}

/// The preview pane for a cluster: name, region and account, then version,
/// status and HA when there is something to say, then the node pools.
pub open spec fn cluster_preview(c: ClusterView) -> Seq<Seq<char>> {
    let base = seq!["  Cluster:  "@ + c.name, "  Region:   "@ + c.region, "  Account:  "@ + c.doctl_context];
    let with_version = if c.version.len() > 0 {
        base.push("  Version:  "@ + c.version)
    } else {
        base
    };
    let with_status = if c.status.len() > 0 {
        with_version.push("  Status:   "@ + c.status)
    } else {
        with_version
    };
    let with_ha = if c.ha {
        with_status.push("  HA:       yes"@)
    } else {
        with_status
    };
    with_ha + pools_section(c.node_pools)
}

/// The preview pane for the highlighted context: nothing when nothing is
/// highlighted, a note when no cluster has that context name, else the
/// preview of the first cluster that has it.
pub open spec fn preview(highlighted: Option<Seq<char>>, clusters: Seq<ClusterView>) -> Seq<Seq<char>> {
    match highlighted {
        None => seq![],
        Some(name) => match find_context(clusters, name) {
            None => seq!["No metadata for "@ + name],
            Some(i) => cluster_preview(clusters[i]),
        },
    }
}

/// No line has the letter `H` as its third character.
spec fn no_h_at_two(lines: Seq<Seq<char>>) -> bool {
    forall|i: int| 0 <= i < lines.len() ==> (#[trigger] lines[i]).len() < 3 || lines[i][2] != 'H'
}

proof fn lemma_third_char(a: Seq<char>, b: Seq<char>)
    requires
        a.len() >= 3,
    ensures
        (a + b).len() >= 3,
        (a + b)[2] == a[2],
{
}

/// The preview says `HA:       yes` exactly when the cluster is highly
/// available, whatever its version, status and node pools.
pub proof fn lemma_preview_ha_line(c: ClusterView)
    ensures
        cluster_preview(c).contains("  HA:       yes"@) <==> c.ha,
{
    reveal_strlit("  Cluster:  ");
    reveal_strlit("  Region:   ");
    reveal_strlit("  Account:  ");
    reveal_strlit("  Version:  ");
    reveal_strlit("  Status:   ");
    reveal_strlit("  HA:       yes");
    reveal_strlit("  Node Pools:");
    reveal_strlit("    ");
    let ha = "  HA:       yes"@;
    assert(ha.len() == 15 && ha[2] == 'H');
    lemma_third_char("  Cluster:  "@, c.name);
    lemma_third_char("  Region:   "@, c.region);
    lemma_third_char("  Account:  "@, c.doctl_context);
    lemma_third_char("  Version:  "@, c.version);
    lemma_third_char("  Status:   "@, c.status);
    let base = seq!["  Cluster:  "@ + c.name, "  Region:   "@ + c.region, "  Account:  "@ + c.doctl_context];
    let with_version = if c.version.len() > 0 {
        base.push("  Version:  "@ + c.version)
    } else {
        base
    };
    let with_status = if c.status.len() > 0 {
        with_version.push("  Status:   "@ + c.status)
    } else {
        with_version
    };
    assert(no_h_at_two(with_status));
    let pools = pools_section(c.node_pools);
    assert(no_h_at_two(pools)) by {
        if c.node_pools.len() > 0 {
            let rows = c.node_pools.map_values(|p: NodePoolView| pool_line(p));
            assert forall|i: int| 0 <= i < pools.len() implies (#[trigger] pools[i]).len() < 3 || pools[i][2] != 'H' by {
                if i >= 2 {
                    let p = c.node_pools[i - 2];
                    assert(pools[i] == pool_line(p));
                    assert(pool_line(p) == "    "@ + p.name + " ("@ + p.size + ", "@ + scaling_text(p) + ")"@);
                    assert(pool_line(p)[2] == ' ');
                } else if i == 1 {
                    assert(pools[i] == "  Node Pools:"@);
                } else {
                    assert(pools[i] == Seq::<char>::empty());
                }
            }
        }
    }
    if c.ha {
        let w = with_status.push(ha);
        assert(cluster_preview(c) == w + pools);
        assert((w + pools)[with_status.len() as int] == ha);
    } else {
        let all = with_status + pools;
        assert(cluster_preview(c) == all);
        assert(no_h_at_two(all)) by {
            assert forall|i: int| 0 <= i < all.len() implies (#[trigger] all[i]).len() < 3 || all[i][2] != 'H' by {
                if i < with_status.len() {
                    assert(all[i] == with_status[i]);
                } else {
                    assert(all[i] == pools[i - with_status.len()]);
                }
            }
        }
        if all.contains(ha) {
            let k = choose|k: int| 0 <= k < all.len() && all[k] == ha;
            assert(all[k][2] == 'H');
        }
    }
}

fn text(s: &str) -> (r: String)
    ensures
        r@ == s@,
{
    String::from_str(s)
}

/// How a node pool scales, as the preview shows it.
pub fn scaling(pool: &NodePoolInfo) -> (r: String)
    ensures
        r@ == scaling_text(pool@),
{
    match (pool.min_nodes, pool.max_nodes) {
        (Some(min), Some(max)) => {
            let mut s = String::new();
            push_decimal(&mut s, min);
            s.append("-");
            push_decimal(&mut s, max);
            s.append(" nodes (autoscale)");
            proof {
                assert(s@ =~= decimal(min as nat) + "-"@ + decimal(max as nat) + " nodes (autoscale)"@);
            }
            s
        },
        _ => if pool.count > 0 {
            let mut s = String::new();
            push_decimal(&mut s, pool.count);
            s.append(" nodes");
            proof {
                assert(s@ =~= decimal(pool.count as nat) + " nodes"@);
            }
            s
        } else {
            text("unknown")
        },
    }
}

fn line(prefix: &str, value: &String) -> (r: String)
    ensures
        r@ == prefix@ + value@,
{
    let mut s = text(prefix);
    s.append(value.as_str());
    s
}

/// The preview lines of one cluster.
pub fn cluster_preview_lines(cluster: &ClusterInfo) -> (r: Vec<String>)
    ensures
        string_views(r@) == cluster_preview(cluster@),
{
    let c = cluster;
    let mut lines: Vec<String> = Vec::new();
    lines.push(line("  Cluster:  ", &c.name));
    lines.push(line("  Region:   ", &c.region));
    lines.push(line("  Account:  ", &c.doctl_context));
    let ghost cv = c@;
    let ghost base = seq!["  Cluster:  "@ + cv.name, "  Region:   "@ + cv.region, "  Account:  "@ + cv.doctl_context];
    assert(string_views(lines@) =~= base);
    if !c.version.as_str().is_empty() {
        let ghost b = lines@;
        lines.push(line("  Version:  ", &c.version));
        assert(string_views(lines@) =~= string_views(b).push("  Version:  "@ + cv.version));
    }
    if !c.status.as_str().is_empty() {
        let ghost b = lines@;
        lines.push(line("  Status:   ", &c.status));
        assert(string_views(lines@) =~= string_views(b).push("  Status:   "@ + cv.status));
    }
    if c.ha {
        let ghost b = lines@;
        lines.push(text("  HA:       yes"));
        assert(string_views(lines@) =~= string_views(b).push("  HA:       yes"@));
    }
    let ghost head = string_views(lines@);
    if c.node_pools.len() > 0 {
        lines.push(String::new());
        lines.push(text("  Node Pools:"));
        let ghost pv = pool_views(c.node_pools@);
        let ghost lines_all = pv.map_values(|p: NodePoolView| pool_line(p));
        assert(string_views(lines@) =~= head + seq![seq![], "  Node Pools:"@]);
        let n = c.node_pools.len();
        for i in 0..n
            invariant
                n == c.node_pools@.len(),
                pv == pool_views(c.node_pools@),
                lines_all == pv.map_values(|p: NodePoolView| pool_line(p)),
                string_views(lines@) == head + seq![seq![], "  Node Pools:"@] + lines_all.take(i as int),
        {
            let pool = &c.node_pools[i];
            let mut l = text("    ");
            l.append(pool.name.as_str());
            l.append(" (");
            l.append(pool.size.as_str());
            l.append(", ");
            let sc = scaling(pool);
            l.append(sc.as_str());
            l.append(")");
            let ghost b = lines@;
            proof {
                assert(pv[i as int] == pool@);
                assert(l@ =~= pool_line(pool@));
                assert(lines_all.take(i + 1) =~= lines_all.take(i as int).push(pool_line(pool@)));
            }
            lines.push(l);
            assert(string_views(lines@) =~= string_views(b).push(pool_line(pool@)));
        }
        assert(lines_all.take(n as int) =~= lines_all);
        assert(pools_section(cv.node_pools) =~= seq![seq![], "  Node Pools:"@] + lines_all);
    } else {
        assert(pools_section(cv.node_pools) =~= Seq::<Seq<char>>::empty());
        assert(string_views(lines@) =~= head + Seq::<Seq<char>>::empty());
    }
    lines
}

/// The preview pane for the highlighted context name (see [`preview`]).
pub fn preview_lines(highlighted: Option<&str>, clusters: &[ClusterInfo]) -> (r: Vec<String>)
    ensures
        string_views(r@) == preview(
            match highlighted {
                Some(h) => Some(h@),
                None => None,
            },
            cluster_views(clusters@),
        ),
{
    match highlighted {
        None => {
            let r: Vec<String> = Vec::new();
            assert(string_views(r@) =~= Seq::<Seq<char>>::empty());
            r
        },
        Some(name) => match find_cluster(name, clusters) {
            None => {
                let mut note = text("No metadata for ");
                note.append(name);
                let mut r: Vec<String> = Vec::new();
                r.push(note);
                assert(string_views(r@) =~= seq!["No metadata for "@ + name@]);
                r
            },
            Some(i) => {
                proof {
                    lemma_find_context(cluster_views(clusters@), name@);
                }
                cluster_preview_lines(&clusters[i])
            },
        },
    }
}


/// The picker lists every cluster exactly once: starting from the distinct
/// context names of the cached clusters and adding the names that a
/// background sync reports, the listed names hold no name twice and are
/// exactly the context names of the clusters known after the sync.
pub proof fn lemma_picker_lists_each_context_once(known: Seq<ClusterView>, fresh: Seq<ClusterView>)
    ensures
        ({
            let shown = distinct(context_names_of(known));
            let m = merged(known, shown, fresh);
            let listed = shown + context_names_of(m.skip(known.len() as int));
            &&& listed.no_duplicates()
            &&& forall|x: Seq<char>| listed.contains(x) <==> context_names_of(m).contains(x)
        }),
{
    broadcast use vstd::seq_lib::lemma_seq_concat_contains_all_elements;
    let names = context_names_of(known);
    let shown = distinct(names);
    let m = merged(known, shown, fresh);
    let tail = m.skip(known.len() as int);
    let added = context_names_of(tail);
    let listed = shown + added;
    lemma_distinct(names);
    lemma_merge(known, shown, fresh);
    assert(m =~= known + tail) by {
        assert(m.take(known.len() as int) == known);
    }
    assert forall|a: int| 0 <= a < added.len() implies !shown.contains(#[trigger] added[a])
        && forall|b: int| 0 <= b < a ==> added[b] != added[a] by {
        assert(added[a] == cluster_context_name(m[a + known.len()]));
        assert forall|b: int| 0 <= b < a implies added[b] != added[a] by {
            assert(added[b] == cluster_context_name(m[b + known.len()]));
        }
    }
    assert forall|i: int, j: int| 0 <= i < listed.len() && 0 <= j < listed.len() && i != j implies listed[i]
        != listed[j] by {
        if i < shown.len() && j < shown.len() {
        } else if i >= shown.len() && j >= shown.len() {
            if i < j {
                assert(listed[i] == added[i - shown.len()]);
                assert(listed[j] == added[j - shown.len()]);
            } else {
                assert(listed[i] == added[i - shown.len()]);
                assert(listed[j] == added[j - shown.len()]);
            }
        } else if i < shown.len() {
            assert(listed[j] == added[j - shown.len()]);
            assert(shown.contains(listed[i]));
        } else {
            assert(listed[i] == added[i - shown.len()]);
            assert(shown.contains(listed[j]));
        }
    }
    assert(context_names_of(m) =~= names + added);
    assert forall|x: Seq<char>| listed.contains(x) <==> context_names_of(m).contains(x) by {
        if listed.contains(x) {
            let k = choose|k: int| 0 <= k < listed.len() && listed[k] == x;
            if k >= shown.len() {
                assert(added[k - shown.len()] == x);
                assert(context_names_of(m)[k - shown.len() + names.len()] == x);
            } else {
                assert(shown.contains(x));
                assert(names.contains(x));
                let w = choose|w: int| 0 <= w < names.len() && names[w] == x;
                assert(context_names_of(m)[w] == x);
            }
        }
        if context_names_of(m).contains(x) {
            let k = choose|k: int| 0 <= k < context_names_of(m).len() && context_names_of(m)[k] == x;
            if k < names.len() {
                assert(names[k] == x);
                assert(names.contains(x));
                assert(shown.contains(x));
                let w = choose|w: int| 0 <= w < shown.len() && shown[w] == x;
                assert(listed[w] == x);
            } else {
                assert(added[k - names.len()] == x);
                assert(listed[k - names.len() + shown.len()] == x);
            }
        }
    }
}

} // verus!
