use kuber::cluster::{AuthContext, ClusterInfo, NodePoolInfo};
use kuber::commands::{cluster_preview_lines, contains_name, context_names, merge_discovered, preview_lines, scaling};
use kuber::doctl::{
    auth_list_args, cluster_info_from_doctl, clusters_from_doctl, download_kubeconfig_args, filter_auth_contexts,
    kubeconfig_from_output, list_clusters_args, node_pool_from_doctl, DoctlCluster, DoctlClusterStatus, DoctlError,
    DoctlNodePool,
};
use kuber::cache::{
    accept_metadata, config_filename, config_path, configs_dir, data_dir, find_config_for_context, init, metadata_path,
    metadata_to_save, temp_dir, Metadata, METADATA_VERSION,
};
use kuber::flow::{
    check_discovered, config_is_fresh, ctx_step, kubie_args, picker_outcome, usable_cache, CtxAction, CtxEvent,
    CtxState, KuberError, CONFIG_MAX_AGE_SECS,
};
use kuber::text::{join_path, push_decimal};
use kuber::Cli;

fn pool(name: &str, size: &str, count: u32, min: Option<u32>, max: Option<u32>) -> NodePoolInfo {
    NodePoolInfo { name: name.to_string(), size: size.to_string(), count, min_nodes: min, max_nodes: max }
}

fn cluster(name: &str, region: &str, ctx: &str) -> ClusterInfo {
    ClusterInfo {
        id: format!("id-{name}"),
        name: name.to_string(),
        region: region.to_string(),
        doctl_context: ctx.to_string(),
        version: String::new(),
        status: String::new(),
        ha: false,
        node_pools: vec![],
        created_at: String::new(),
    }
}

fn strings(v: &[&str]) -> Vec<String> {
    v.iter().map(|s| s.to_string()).collect()
}

fn dirs() -> kuber::CacheDirs {
    init(Some("/home/u/.cache".to_string()), None, 1000)
}

#[test]
fn config_filename_replaces_and_filters() {
    assert_eq!(config_filename("me@example.com", "My Cluster"), "me_example_com_My_Cluster.yaml");
    assert_eq!(config_filename("a/b", "c:d"), "ab_cd.yaml");
    assert_eq!(config_filename("", ""), "_.yaml");
    assert_eq!(config_filename("team-1", "prod_db"), "team-1_prod_db.yaml");
}

#[test]
fn config_filename_keeps_unicode_alphanumerics() {
    assert_eq!(config_filename("ctx", "café ①"), "ctx_café_①.yaml");
    assert_eq!(config_filename("ctx", "a→b"), "ctx_ab.yaml");
}

#[test]
fn config_filename_is_idempotent_on_safe_names() {
    let once = config_filename("me@example.com", "My Cluster/../x");
    assert_eq!(once, "me_example_com_My_Clusterx.yaml");
    assert_eq!(config_filename("me_example_com", "My_Clusterx"), once);
    assert!(!once.contains('/'));
}

#[test]
fn kube_context_name_format() {
    let c = cluster("my-cluster", "sfo3", "work");
    assert_eq!(c.kube_context_name(), "do-sfo3-my-cluster");
}

#[test]
fn init_uses_xdg_cache_home() {
    let d = init(Some("/x/cache".to_string()), Some("/home/u".to_string()), 1000);
    assert_eq!(d.data, "/x/cache/kuber");
    assert_eq!(d.temp, "/tmp/kuber-1000");
    assert_eq!(data_dir(&d), "/x/cache/kuber");
    assert_eq!(temp_dir(&d), "/tmp/kuber-1000");
}

#[test]
fn init_defaults_to_home_cache() {
    let d = init(None, Some("/home/u".to_string()), 0);
    assert_eq!(d.data, "/home/u/.cache/kuber");
    assert_eq!(d.temp, "/tmp/kuber-0");
}

#[test]
fn init_without_home_uses_tmp() {
    let d = init(None, None, 4294967295);
    assert_eq!(d.data, "/tmp/.cache/kuber");
    assert_eq!(d.temp, "/tmp/kuber-4294967295");
}

#[test]
fn init_joins_like_paths() {
    assert_eq!(init(Some("/x/".to_string()), None, 7).data, "/x/kuber");
    assert_eq!(init(Some(String::new()), None, 7).data, "kuber");
}

#[test]
fn configs_dir_and_metadata_path() {
    let d = dirs();
    assert_eq!(configs_dir(&d), "/tmp/kuber-1000/configs");
    assert_eq!(metadata_path(&d), "/home/u/.cache/kuber/metadata.json");
}

#[test]
fn join_path_cases() {
    assert_eq!(join_path("/a", "b"), "/a/b");
    assert_eq!(join_path("/a/", "b"), "/a/b");
    assert_eq!(join_path("", "b"), "b");
    assert_eq!(join_path("/a", "/b"), "/b");
}

#[test]
fn decimal_formatting() {
    let mut s = String::from("n=");
    push_decimal(&mut s, 0);
    push_decimal(&mut s, 10);
    assert_eq!(s, "n=010");
    let mut t = String::new();
    push_decimal(&mut t, 1234567);
    assert_eq!(t, "1234567");
}

#[test]
fn config_path_is_inside_configs_dir() {
    let d = dirs();
    let c = cluster("My Cluster", "nyc1", "me@example.com");
    assert_eq!(config_path(&d, &c), "/tmp/kuber-1000/configs/me_example_com_My_Cluster.yaml");
}

#[test]
fn find_config_for_context_finds_first_match() {
    let d = dirs();
    let mut a = cluster("web", "sfo3", "one");
    a.id = "first".to_string();
    let mut b = cluster("web", "sfo3", "two");
    b.id = "second".to_string();
    let clusters = vec![cluster("db", "nyc1", "one"), a, b];
    let (path, found) = find_config_for_context("do-sfo3-web", &clusters, &d).unwrap();
    assert_eq!(found.id, "first");
    assert_eq!(found.doctl_context, "one");
    assert_eq!(path, "/tmp/kuber-1000/configs/one_web.yaml");
    assert!(find_config_for_context("do-sfo3-api", &clusters, &d).is_none());
    assert!(find_config_for_context("do-sfo3-web", &[], &d).is_none());
}

#[test]
fn metadata_round_trip() {
    let clusters = vec![cluster("a", "r", "c"), cluster("b", "r", "c")];
    let saved = metadata_to_save(&clusters);
    assert_eq!(saved.version, METADATA_VERSION);
    assert_eq!(saved.version, 1);
    let loaded = accept_metadata(saved).unwrap();
    assert_eq!(loaded.len(), 2);
    assert_eq!(loaded[1].name, "b");
}

#[test]
fn stale_metadata_is_discarded() {
    let m = Metadata { version: 2, clusters: vec![cluster("a", "r", "c")] };
    assert!(accept_metadata(m).is_none());
    let m0 = Metadata { version: 0, clusters: vec![] };
    assert!(accept_metadata(m0).is_none());
}

#[test]
fn auth_contexts_drop_default() {
    let cs = vec![
        AuthContext { name: "default".to_string() },
        AuthContext { name: "work".to_string() },
        AuthContext { name: "Default".to_string() },
        AuthContext { name: "default".to_string() },
        AuthContext { name: "home".to_string() },
    ];
    let names: Vec<String> = filter_auth_contexts(cs).into_iter().map(|c| c.name).collect();
    assert_eq!(names, strings(&["work", "Default", "home"]));
}

#[test]
fn doctl_argument_lists() {
    assert_eq!(auth_list_args(), strings(&["auth", "list", "-o", "json"]));
    assert_eq!(
        list_clusters_args("work"),
        strings(&["kubernetes", "cluster", "list", "--context", "work", "-o", "json"])
    );
    assert_eq!(
        download_kubeconfig_args("work", "abc-123"),
        strings(&["kubernetes", "cluster", "kubeconfig", "show", "abc-123", "--context", "work"])
    );
}

#[test]
fn kubeconfig_output_cases() {
    match kubeconfig_from_output(false, b"ignored".to_vec(), b"boom".to_vec()) {
        Err(DoctlError::Failed { stderr }) => assert_eq!(stderr, b"boom".to_vec()),
        other => panic!("unexpected {other:?}"),
    }
    assert!(matches!(kubeconfig_from_output(true, vec![0xff, 0xfe], vec![]), Err(DoctlError::NotUtf8)));
    assert_eq!(kubeconfig_from_output(true, "apiVersion: v1\n".as_bytes().to_vec(), vec![]).unwrap(), "apiVersion: v1\n");
    assert_eq!(kubeconfig_from_output(true, "héllo".as_bytes().to_vec(), vec![]).unwrap(), "héllo");
}

fn raw_cluster(name: &str) -> DoctlCluster {
    DoctlCluster {
        id: format!("id-{name}"),
        name: name.to_string(),
        region: "ams3".to_string(),
        version: "1.30.1-do.0".to_string(),
        status: DoctlClusterStatus { state: "running".to_string() },
        ha: true,
        node_pools: vec![DoctlNodePool {
            name: "pool-a".to_string(),
            size: "s-2vcpu-4gb".to_string(),
            count: 3,
            min_nodes: Some(1),
            max_nodes: Some(5),
        }],
        created_at: "2024-01-01T00:00:00Z".to_string(),
    }
}

#[test]
fn doctl_clusters_convert() {
    let out = clusters_from_doctl(vec![raw_cluster("a"), raw_cluster("b")], "work");
    assert_eq!(out.len(), 2);
    let c = &out[0];
    assert_eq!(c.id, "id-a");
    assert_eq!(c.name, "a");
    assert_eq!(c.region, "ams3");
    assert_eq!(c.doctl_context, "work");
    assert_eq!(c.version, "1.30.1-do.0");
    assert_eq!(c.status, "running");
    assert!(c.ha);
    assert_eq!(c.created_at, "2024-01-01T00:00:00Z");
    assert_eq!(c.node_pools.len(), 1);
    assert_eq!(c.node_pools[0].name, "pool-a");
    assert_eq!(c.node_pools[0].size, "s-2vcpu-4gb");
    assert_eq!(c.node_pools[0].count, 3);
    assert_eq!(c.node_pools[0].min_nodes, Some(1));
    assert_eq!(c.node_pools[0].max_nodes, Some(5));
    assert_eq!(out[1].name, "b");
    let single = cluster_info_from_doctl(raw_cluster("z"), "home");
    assert_eq!(single.doctl_context, "home");
    let p = node_pool_from_doctl(DoctlNodePool {
        name: "p".to_string(),
        size: "s".to_string(),
        count: 0,
        min_nodes: None,
        max_nodes: None,
    });
    assert_eq!((p.count, p.min_nodes, p.max_nodes), (0, None, None));
}

#[test]
fn clone_keeps_every_field() {
    let mut c = cluster("x", "r", "ctx");
    c.node_pools = vec![pool("p", "s", 2, None, Some(4))];
    c.ha = true;
    let d = c.clone();
    assert_eq!(d.name, c.name);
    assert_eq!(d.node_pools[0].max_nodes, Some(4));
    assert!(d.ha);
}

#[test]
fn context_names_are_distinct_in_first_order() {
    let cs = vec![cluster("a", "r", "x"), cluster("b", "r", "x"), cluster("a", "r", "y")];
    assert_eq!(context_names(&cs), strings(&["do-r-a", "do-r-b"]));
    assert!(contains_name(&strings(&["x", "y"]), &"y".to_string()));
    assert!(!contains_name(&strings(&["x", "y"]), &"z".to_string()));
}

#[test]
fn merge_adds_only_new_contexts() {
    let mut known = vec![cluster("a", "r", "x")];
    let shown = context_names(&known);
    let fresh = vec![cluster("a", "r", "y"), cluster("b", "r", "x"), cluster("b", "r", "y"), cluster("c", "r", "x")];
    let added = merge_discovered(&mut known, &shown, fresh);
    assert_eq!(added, strings(&["do-r-b", "do-r-c"]));
    let names: Vec<String> = known.iter().map(|c| c.kube_context_name()).collect();
    assert_eq!(names, strings(&["do-r-a", "do-r-b", "do-r-c"]));
    assert_eq!(known[1].doctl_context, "x");
}

#[test]
fn merge_twice_adds_nothing() {
    let mut known = vec![cluster("a", "r", "x")];
    let shown = context_names(&known);
    let fresh = || vec![cluster("b", "r", "x"), cluster("c", "r", "x")];
    let first = merge_discovered(&mut known, &shown, fresh());
    assert_eq!(first.len(), 2);
    let second = merge_discovered(&mut known, &shown, fresh());
    assert!(second.is_empty());
    assert_eq!(known.len(), 3);
}

#[test]
fn merge_skips_names_already_shown() {
    let mut known: Vec<ClusterInfo> = vec![];
    let shown = strings(&["do-r-a"]);
    let added = merge_discovered(&mut known, &shown, vec![cluster("a", "r", "x")]);
    assert!(added.is_empty());
    assert!(known.is_empty());
}

#[test]
fn scaling_texts() {
    assert_eq!(scaling(&pool("p", "s", 3, Some(1), Some(5))), "1-5 nodes (autoscale)");
    assert_eq!(scaling(&pool("p", "s", 3, Some(1), None)), "3 nodes");
    assert_eq!(scaling(&pool("p", "s", 0, None, Some(2))), "unknown");
}

#[test]
fn preview_of_a_full_cluster() {
    let mut c = cluster("web", "sfo3", "work");
    c.version = "1.30".to_string();
    c.status = "running".to_string();
    c.ha = true;
    c.node_pools = vec![pool("pool-a", "s-2vcpu", 3, Some(2), Some(4)), pool("pool-b", "s-1vcpu", 2, None, None)];
    let lines = preview_lines(Some("do-sfo3-web"), &[c.clone()]);
    assert_eq!(
        lines,
        strings(&[
            "  Cluster:  web",
            "  Region:   sfo3",
            "  Account:  work",
            "  Version:  1.30",
            "  Status:   running",
            "  HA:       yes",
            "",
            "  Node Pools:",
            "    pool-a (s-2vcpu, 2-4 nodes (autoscale))",
            "    pool-b (s-1vcpu, 2 nodes)",
        ])
    );
    assert_eq!(cluster_preview_lines(&c), lines);
}

#[test]
fn preview_of_a_bare_cluster() {
    let c = cluster("db", "nyc1", "home");
    assert_eq!(
        preview_lines(Some("do-nyc1-db"), &[c]),
        strings(&["  Cluster:  db", "  Region:   nyc1", "  Account:  home"])
    );
}

#[test]
fn preview_without_metadata_or_selection() {
    let cs = vec![cluster("db", "nyc1", "home")];
    assert_eq!(preview_lines(Some("do-x-y"), &cs), strings(&["No metadata for do-x-y"]));
    assert!(preview_lines(None, &cs).is_empty());
}

#[test]
fn freshness_boundary() {
    assert_eq!(CONFIG_MAX_AGE_SECS, 24 * 60 * 60);
    assert!(config_is_fresh(Some(0)));
    assert!(config_is_fresh(Some(86399)));
    assert!(!config_is_fresh(Some(86400)));
    assert!(!config_is_fresh(None));
}

#[test]
fn usable_cache_cases() {
    assert!(usable_cache(None).is_none());
    assert!(usable_cache(Some(vec![])).is_none());
    assert_eq!(usable_cache(Some(vec![cluster("a", "r", "c")])).unwrap().len(), 1);
}

#[test]
fn check_discovered_cases() {
    assert!(matches!(check_discovered(vec![]), Err(KuberError::NoClusters)));
    assert_eq!(check_discovered(vec![cluster("a", "r", "c")]).unwrap().len(), 1);
}

#[test]
fn picker_outcome_cases() {
    assert!(picker_outcome(true, Some("x".to_string()), vec![]).is_none());
    assert!(picker_outcome(false, None, vec![]).is_none());
    let (s, v) = picker_outcome(false, Some("x".to_string()), vec![cluster("a", "r", "c")]).unwrap();
    assert_eq!(s, "x");
    assert_eq!(v.len(), 1);
}

#[test]
fn kubie_arguments() {
    assert_eq!(kubie_args("/tmp/c.yaml", "do-r-a"), strings(&["ctx", "-f", "/tmp/c.yaml", "do-r-a"]));
}

#[test]
fn direct_switch_with_cached_context() {
    let d = dirs();
    let (st, act) = ctx_step(CtxState::Start { requested: Some("do-r-a".to_string()) }, CtxEvent::Begin, &d);
    assert!(matches!(act, CtxAction::LoadMetadata));
    let cached = Some(vec![cluster("a", "r", "work")]);
    let (st, act) = ctx_step(st, CtxEvent::MetadataLoaded { cached }, &d);
    match act {
        CtxAction::EnsureConfig { cluster } => assert_eq!(cluster.name, "a"),
        other => panic!("unexpected {other:?}"),
    }
    let (st, act) = ctx_step(st, CtxEvent::ConfigReady, &d);
    match act {
        CtxAction::RunKubie { args } => {
            assert_eq!(args, strings(&["ctx", "-f", "/tmp/kuber-1000/configs/work_a.yaml", "do-r-a"]))
        }
        other => panic!("unexpected {other:?}"),
    }
    let (st, act) = ctx_step(st, CtxEvent::KubieExited { success: false, code: None }, &d);
    assert!(matches!(act, CtxAction::Exit { code: 1 }));
    assert!(matches!(st, CtxState::Finished));
}

#[test]
fn direct_switch_syncs_unknown_context() {
    let d = dirs();
    let st = CtxState::AwaitingMetadata { name: "do-r-b".to_string() };
    let (st, act) = ctx_step(st, CtxEvent::MetadataLoaded { cached: None }, &d);
    assert!(matches!(act, CtxAction::FullSync));
    let (st2, act) = ctx_step(st, CtxEvent::Synced { clusters: vec![cluster("a", "r", "w")] }, &d);
    match act {
        CtxAction::Fail { error: KuberError::UnknownContext { name } } => assert_eq!(name, "do-r-b"),
        other => panic!("unexpected {other:?}"),
    }
    assert!(matches!(st2, CtxState::Finished));
}

#[test]
fn interactive_switch_paths() {
    let d = dirs();
    let (st, act) = ctx_step(CtxState::Start { requested: None }, CtxEvent::Begin, &d);
    assert!(matches!(act, CtxAction::Pick));
    let (_, act) = ctx_step(st, CtxEvent::Picked { choice: None }, &d);
    assert!(matches!(act, CtxAction::Done));
    let choice = Some(("do-r-a".to_string(), vec![cluster("a", "r", "w")]));
    let (st, act) = ctx_step(CtxState::AwaitingPick, CtxEvent::Picked { choice }, &d);
    assert!(matches!(act, CtxAction::EnsureConfig { .. }));
    assert!(matches!(st, CtxState::AwaitingConfig { .. }));
    let (_, act) = ctx_step(CtxState::AwaitingKubie, CtxEvent::KubieExited { success: true, code: Some(3) }, &d);
    assert!(matches!(act, CtxAction::Done));
    let (_, act) = ctx_step(CtxState::AwaitingKubie, CtxEvent::KubieExited { success: false, code: Some(3) }, &d);
    assert!(matches!(act, CtxAction::Exit { code: 3 }));
    let (_, act) = ctx_step(CtxState::Finished, CtxEvent::Begin, &d);
    assert!(matches!(act, CtxAction::Fail { error: KuberError::UnexpectedEvent }));
}

#[test]
fn cli_holds_optional_context() {
    let c = Cli { context: Some("do-r-a".to_string()) };
    assert_eq!(c.context.as_deref(), Some("do-r-a"));
}

#[test]
fn picker_lists_each_context_once() {
    let mut known = vec![cluster("a", "r", "x"), cluster("a", "r", "y"), cluster("b", "r", "x")];
    let shown = context_names(&known);
    assert_eq!(shown, strings(&["do-r-a", "do-r-b"]));
    let fresh = vec![cluster("c", "r", "x"), cluster("a", "r", "z"), cluster("c", "r", "y"), cluster("d", "r", "x")];
    let added = merge_discovered(&mut known, &shown, fresh);
    let mut listed = shown.clone();
    listed.extend(added);
    assert_eq!(listed, strings(&["do-r-a", "do-r-b", "do-r-c", "do-r-d"]));
    let mut all: Vec<String> = known.iter().map(|c| c.kube_context_name()).collect();
    all.dedup();
    let mut sorted_listed = listed.clone();
    sorted_listed.sort();
    let mut sorted_all = all.clone();
    sorted_all.sort();
    sorted_all.dedup();
    assert_eq!(sorted_listed, sorted_all);
}
