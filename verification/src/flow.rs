//! The flow of a context switch as a state machine: the caller performs each
//! action (reading the cache, syncing with doctl, running the picker,
//! fetching a kubeconfig, running kubie) and hands back what came of it.
use vstd::prelude::*;
use crate::cache::{CacheDirs, config_path, config_path_of, find_cluster, find_context, lemma_find_context};
use crate::cluster::{ClusterInfo, ClusterView, cluster_context_name, cluster_views};
use crate::commands::string_views;

verus! {

/// Why a context switch stops.
#[derive(Debug)]
pub enum KuberError {
    /// No known cluster has the requested context name.
    UnknownContext { name: String },
    /// doctl knows no cluster in any of its contexts.
    NoClusters,
    /// An event arrived that the current state does not wait for.
    UnexpectedEvent,
}

/// How old a cached kubeconfig may get before it is fetched again: 24 hours.
pub const CONFIG_MAX_AGE_SECS: u64 = 24 * 60 * 60;

/// Whether a cached kubeconfig can be used as it is: it exists and its age is
/// known and under 24 hours. `age_secs` is the whole seconds since the file was
/// last modified, `None` when the file is missing or its age cannot be told.
pub fn config_is_fresh(age_secs: Option<u64>) -> (r: bool)
    ensures
        r == (age_secs matches Some(a) && a < CONFIG_MAX_AGE_SECS),
{
    match age_secs {
        Some(a) => a < CONFIG_MAX_AGE_SECS,
        None => false,
    }
}

/// The cached clusters the picker can start from: the cached list when there
/// is one and it is not empty; `None` asks for a full sync first, so that the
/// user sees all clusters.
pub fn usable_cache(cached: Option<Vec<ClusterInfo>>) -> (r: Option<Vec<ClusterInfo>>)
    ensures
        match cached {
            Some(v) => if v@.len() > 0 {
                r matches Some(w) && w@ == v@
            } else {
                r is None
            },
            None => r is None,
        },
{
    match cached {
        Some(v) => if v.len() > 0 {
            Some(v)
        } else {
            None
        },
        None => None,
    }
}

/// The result of a full sync: the clusters found across all doctl contexts,
/// or an error when there are none.
pub fn check_discovered(clusters: Vec<ClusterInfo>) -> (r: Result<Vec<ClusterInfo>, KuberError>)
    ensures
        clusters@.len() == 0 <==> r matches Err(KuberError::NoClusters),
        clusters@.len() > 0 ==> (r matches Ok(v) && v@ == clusters@),
{
    if clusters.len() == 0 {
        Err(KuberError::NoClusters)
    } else {
        Ok(clusters)
    }
}

/// What the picker's answer amounts to: nothing when the user aborted or
/// selected nothing, else the selected context name with the cluster list as
/// it stands after the background sync.
pub fn picker_outcome(aborted: bool, selected: Option<String>, clusters: Vec<ClusterInfo>) -> (r: Option<(String, Vec<ClusterInfo>)>)
    ensures
        (aborted || selected is None) ==> r is None,
        !aborted && selected is Some ==> (r matches Some((s, v)) && s@ == selected->0@ && v@ == clusters@),
{
    if aborted {
        return None;
    }
    match selected {
        Some(s) => Some((s, clusters)),
        None => None,
    }
}


/// Where a context switch stands.
#[derive(Debug)]
pub enum CtxState {
    /// Nothing done yet; the context name given on the command line, if any.
    Start { requested: Option<String> },
    /// Waiting for the cached metadata, to look up `name`.
    AwaitingMetadata { name: String },
    /// Waiting for a full sync, after `name` was not found in the cache.
    AwaitingSync { name: String },
    /// Waiting for the interactive picker.
    AwaitingPick,
    /// Waiting until the kubeconfig at `config_path` is in place.
    AwaitingConfig { name: String, config_path: String },
    /// Waiting for kubie to exit.
    AwaitingKubie,
    /// Nothing more to do.
    Finished,
}

/// What came of the last action.
#[derive(Debug)]
pub enum CtxEvent {
    /// The switch begins.
    Begin,
    /// The cached metadata was read: its clusters, or `None` when there is no
    /// usable cache.
    MetadataLoaded { cached: Option<Vec<ClusterInfo>> },
    /// A full sync found these clusters.
    Synced { clusters: Vec<ClusterInfo> },
    /// The picker answered: the selected context name and the cluster list, or
    /// `None` when nothing was selected.
    Picked { choice: Option<(String, Vec<ClusterInfo>)> },
    /// The kubeconfig is in place.
    ConfigReady,
    /// kubie exited.
    KubieExited { success: bool, code: Option<i32> },
}

/// What the caller does next.
#[derive(Debug)]
pub enum CtxAction {
    /// Read the cached metadata.
    LoadMetadata,
    /// Discover all clusters across all doctl contexts and save metadata.
    FullSync,
    /// Run the interactive picker.
    Pick,
    /// Make sure the kubeconfig of this cluster is cached and fresh.
    EnsureConfig { cluster: ClusterInfo },
    /// Run `kubie` with these arguments.
    RunKubie { args: Vec<String> },
    /// Exit the process with this code.
    Exit { code: i32 },
    /// Return successfully.
    Done,
    /// Return this error.
    Fail { error: KuberError },
}

/// `ctx -f <config-path> <context-name>`
pub open spec fn kubie_args_spec(config_path: Seq<char>, name: Seq<char>) -> Seq<Seq<char>> {
    seq!["ctx"@, "-f"@, config_path, name]
}

/// The arguments of the kubie call that opens a shell in a context.
pub fn kubie_args(config_path: &str, name: &str) -> (r: Vec<String>)
    ensures
        string_views(r@) == kubie_args_spec(config_path@, name@),
{
    let mut v: Vec<String> = Vec::new();
    v.push(String::from_str("ctx"));
    v.push(String::from_str("-f"));
    v.push(String::from_str(config_path));
    v.push(String::from_str(name));
    assert(string_views(v@) =~= kubie_args_spec(config_path@, name@));
    v
}

/// Where looking up the context `name` among `clusters` leads: to fetching the
/// kubeconfig of the first cluster with that context name, or to the error
/// that the context is unknown.
pub open spec fn resolves(name: Seq<char>, clusters: Seq<ClusterView>, temp: Seq<char>, r: (CtxState, CtxAction)) -> bool {
    match find_context(clusters, name) {
        None => {
            &&& r.0 is Finished
            &&& r.1 matches CtxAction::Fail { error: KuberError::UnknownContext { name: n } }
            &&& n@ == name
        },
        Some(i) => {
            &&& r.0 matches CtxState::AwaitingConfig { name: n, config_path: p }
            &&& n@ == name
            &&& p@ == config_path_of(temp, clusters[i])
            &&& r.1 matches CtxAction::EnsureConfig { cluster: c }
            &&& c@ == clusters[i]
        },
    }
}

fn resolve(name: String, clusters: &[ClusterInfo], dirs: &CacheDirs) -> (r: (CtxState, CtxAction))
    ensures
        resolves(name@, cluster_views(clusters@), dirs.temp@, r),
{
    match find_cluster(name.as_str(), clusters) {
        None => (CtxState::Finished, CtxAction::Fail { error: KuberError::UnknownContext { name } }),
        Some(i) => {
            proof {
                lemma_find_context(cluster_views(clusters@), name@);
            }
            let cluster = clusters[i].clone();
            let path = config_path(dirs, &cluster);
            (CtxState::AwaitingConfig { name, config_path: path }, CtxAction::EnsureConfig { cluster })
        },
    }
}

/// The clusters of an optional list; none for `None`.
pub open spec fn views_or_empty(clusters: Option<Vec<ClusterInfo>>) -> Seq<ClusterView> {
    match clusters {
        Some(v) => cluster_views(v@),
        None => seq![],
    }
}

/// Looking a context up in cached metadata considers every cached cluster: it
/// finds nothing (and so a full sync is asked for) exactly when no cached
/// cluster, at any position, has the context name, and otherwise it finds the
/// first cached cluster that has it. Without cached metadata it finds nothing.
pub proof fn lemma_cached_lookup(cached: Vec<ClusterInfo>, name: Seq<char>)
    ensures
        find_context(views_or_empty(Some(cached)), name) is None <==> forall|j: int|
            0 <= j < cached@.len() ==> cluster_context_name(#[trigger] cached@[j]@) != name,
        find_context(views_or_empty(Some(cached)), name) matches Some(i) ==> {
            &&& 0 <= i < cached@.len()
            &&& views_or_empty(Some(cached))[i] == cached@[i]@
            &&& cluster_context_name(cached@[i]@) == name
            &&& forall|j: int| 0 <= j < i ==> cluster_context_name(#[trigger] cached@[j]@) != name
        },
        find_context(views_or_empty(None), name) is None,
{
    let cs = views_or_empty(Some(cached));
    lemma_find_context(cs, name);
    lemma_find_context(views_or_empty(None), name);
    assert(cs.len() == cached@.len());
    assert forall|j: int| 0 <= j < cached@.len() implies #[trigger] cs[j] == cached@[j]@ by {}
    let none_cached = forall|j: int| 0 <= j < cached@.len() ==> cluster_context_name(#[trigger] cached@[j]@) != name;
    let none_cs = forall|j: int| 0 <= j < cs.len() ==> cluster_context_name(#[trigger] cs[j]) != name;
    assert(none_cached <==> none_cs) by {
        if none_cached {
            assert forall|j: int| 0 <= j < cs.len() implies cluster_context_name(#[trigger] cs[j]) != name by {
                assert(cs[j] == cached@[j]@);
            }
        }
        if none_cs {
            assert forall|j: int| 0 <= j < cached@.len() implies cluster_context_name(#[trigger] cached@[j]@) != name by {
                assert(cs[j] == cached@[j]@);
            }
        }
    }
    if let Some(i) = find_context(cs, name) {
        assert(cs[i] == cached@[i]@);
        assert forall|j: int| 0 <= j < i implies cluster_context_name(#[trigger] cached@[j]@) != name by {
            assert(cs[j] == cached@[j]@);
        }
    }
}

/// One step of a context switch.
///
/// With a context name given, the cached metadata is read and the name looked
/// up there; only when it is not found is a full sync done, after which the
/// name must be known or the switch fails as an unknown context. Without a
/// name, the picker chooses (and a pick of nothing ends the switch quietly).
/// The kubeconfig of the chosen cluster is then made available and kubie run on
/// it; a kubie failure becomes the exit code of the process, 1 when kubie had
/// none.
pub fn ctx_step(state: CtxState, event: CtxEvent, dirs: &CacheDirs) -> (r: (CtxState, CtxAction))
    ensures
        match (state, event) {
            (CtxState::Start { requested: Some(n) }, CtxEvent::Begin) => {
                &&& r.0 matches CtxState::AwaitingMetadata { name }
                &&& name@ == n@
                &&& r.1 is LoadMetadata
            },
            (CtxState::Start { requested: None }, CtxEvent::Begin) => r.0 is AwaitingPick && r.1 is Pick,
            (CtxState::AwaitingMetadata { name: n }, CtxEvent::MetadataLoaded { cached }) => {
                if find_context(views_or_empty(cached), n@) is None {
                    &&& r.0 matches CtxState::AwaitingSync { name }
                    &&& name@ == n@
                    &&& r.1 is FullSync
                } else {
                    resolves(n@, views_or_empty(cached), dirs.temp@, r)
                }
            },
            (CtxState::AwaitingSync { name: n }, CtxEvent::Synced { clusters }) => resolves(
                n@,
                cluster_views(clusters@),
                dirs.temp@,
                r,
            ),
            (CtxState::AwaitingPick, CtxEvent::Picked { choice: None }) => r.0 is Finished && r.1 is Done,
            (CtxState::AwaitingPick, CtxEvent::Picked { choice: Some((n, clusters)) }) => resolves(
                n@,
                cluster_views(clusters@),
                dirs.temp@,
                r,
            ),
            (CtxState::AwaitingConfig { name: n, config_path: p }, CtxEvent::ConfigReady) => {
                &&& r.0 is AwaitingKubie
                &&& r.1 matches CtxAction::RunKubie { args }
                &&& string_views(args@) == kubie_args_spec(p@, n@)
            },
            (CtxState::AwaitingKubie, CtxEvent::KubieExited { success, code }) => {
                &&& r.0 is Finished
                &&& if success {
                    r.1 is Done
                } else {
                    r.1 == (CtxAction::Exit {
                        code: match code {
                            Some(c) => c,
                            None => 1,
                        },
                    })
                }
            },
            _ => r.0 is Finished && r.1 matches CtxAction::Fail { error: KuberError::UnexpectedEvent },
        },
{
    match (state, event) {
        (CtxState::Start { requested: Some(n) }, CtxEvent::Begin) => (
            CtxState::AwaitingMetadata { name: n },
            CtxAction::LoadMetadata,
        ),
        (CtxState::Start { requested: None }, CtxEvent::Begin) => (CtxState::AwaitingPick, CtxAction::Pick),
        (CtxState::AwaitingMetadata { name }, CtxEvent::MetadataLoaded { cached }) => {
            let list = match cached {
                Some(v) => v,
                None => Vec::new(),
            };
            assert(cluster_views(list@) =~= views_or_empty(cached));
            if find_cluster(name.as_str(), list.as_slice()).is_none() {
                (CtxState::AwaitingSync { name }, CtxAction::FullSync)
            } else {
                resolve(name, list.as_slice(), dirs)
            }
        },
        (CtxState::AwaitingSync { name }, CtxEvent::Synced { clusters }) => resolve(name, clusters.as_slice(), dirs),
        (CtxState::AwaitingPick, CtxEvent::Picked { choice }) => match choice {
            None => (CtxState::Finished, CtxAction::Done),
            Some((name, clusters)) => resolve(name, clusters.as_slice(), dirs),
        },
        (CtxState::AwaitingConfig { name, config_path }, CtxEvent::ConfigReady) => {
            let args = kubie_args(config_path.as_str(), name.as_str());
            (CtxState::AwaitingKubie, CtxAction::RunKubie { args })
        },
        (CtxState::AwaitingKubie, CtxEvent::KubieExited { success, code }) => {
            if success {
                (CtxState::Finished, CtxAction::Done)
            } else {
                let c = match code {
                    Some(c) => c,
                    None => 1,
                };
                (CtxState::Finished, CtxAction::Exit { code: c })
            }
        },
        _ => (CtxState::Finished, CtxAction::Fail { error: KuberError::UnexpectedEvent }),
    }
}

} // verus!
