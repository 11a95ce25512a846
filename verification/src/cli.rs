//! The command line of kuber.
use vstd::prelude::*;

verus! {

/// Ephemeral kubeconfig manager: wraps kubie with on-demand DigitalOcean configs.
#[derive(Debug)]
pub struct Cli {
    /// Context name to switch to directly (skip interactive selection)
    pub context: Option<String>,
}

} // verus!
