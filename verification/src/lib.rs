//! Ephemeral kubeconfig manager for DigitalOcean Kubernetes clusters: the cache
//! layout, kubeconfig file naming, cluster metadata, the doctl and kubie
//! command lines, and the decisions of the interactive and the direct context
//! switch.

pub mod cache;
pub mod cli;
pub mod cluster;
pub mod commands;
pub mod doctl;
pub mod flow;
pub mod text;

pub use cache::{
    accept_metadata, config_filename, config_path, configs_dir, data_dir, find_config_for_context, init,
    metadata_path, metadata_to_save, temp_dir, CacheDirs, Metadata, METADATA_VERSION,
};
pub use cli::Cli;
pub use cluster::{AuthContext, ClusterInfo, NodePoolInfo};
pub use commands::{context_names, merge_discovered, preview_lines};
pub use doctl::{
    auth_list_args, cluster_info_from_doctl, clusters_from_doctl, download_kubeconfig_args, filter_auth_contexts,
    kubeconfig_from_output, list_clusters_args, DoctlCluster, DoctlClusterStatus, DoctlError, DoctlNodePool,
};
pub use flow::{
    check_discovered, config_is_fresh, ctx_step, kubie_args, picker_outcome, usable_cache, CtxAction, CtxEvent,
    CtxState, KuberError, CONFIG_MAX_AGE_SECS,
};

use vstd::prelude::*;

verus! {

} // verus!
