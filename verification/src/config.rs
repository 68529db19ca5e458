//! Settings read at start: the tokens the orchestrator accepts, and what a
//! submitter runs where.
use crate::ids::{fresh_id, kind_bits, random_kind};
use vstd::prelude::*;

verus! {

/// The settings of a submitter.
#[derive(Debug, Clone, PartialEq, Eq)]
pub struct Config {
    /// The title shown above the results.
    pub title: String,
    /// The endpoint of the orchestrator.
    pub address: String,
    pub runs: Vec<ConfigRun>,
    /// Raised by hand to make the recorded history start over.
    pub reset_ci_history: u32,
}

/// One run of the benches: on which runners, built for which target.
#[derive(Debug, Clone, PartialEq, Eq)]
pub struct ConfigRun {
    /// Only runners that advertise this machine type take the run.
    pub machine_type: String,
    /// The target triple the benches are built for.
    pub target_triple: String,
}

impl Config {
    /// Where the settings are read from when no place is given.
    pub open spec fn default_path() -> Seq<char> {
        "ussal.json"@
    }

    /// Where the settings are read from: the place given, else `ussal.json`.
    pub fn path(config_path: Option<&str>) -> (r: String)
        ensures
            r@ == match config_path {
                Some(given) => given@,
                None => Self::default_path(),
            },
    {
        match config_path {
            Some(given) => given.to_owned(),
            None => "ussal.json".to_owned(),
        }
    }

    /// The endpoint to connect to: the one given on the command line, else
    /// the one of the settings.
    pub fn endpoint(&self, address: Option<&str>) -> (r: String)
        ensures
            r@ == match address {
                Some(given) => given@,
                None => self.address@,
            },
    {
        match address {
            Some(given) => given.to_owned(),
            None => self.address.clone(),
        }
    }
}

/// The tokens that the orchestrator accepts, as one snapshot. A snapshot is
/// never changed; a reload replaces it by another.
#[derive(Debug, Clone, PartialEq, Eq)]
pub struct OrchestratorConfig {
    pub tokens: Vec<u128>,
}

impl OrchestratorConfig {
    /// The settings that are written when none exist yet: one token, drawn at
    /// random.
    pub fn generate() -> (r: OrchestratorConfig)
        ensures
            r.tokens@.len() == 1,
            kind_bits(r.tokens@[0]) == random_kind(),
    {
        let mut tokens: Vec<u128> = Vec::new();
        tokens.push(fresh_id());
        OrchestratorConfig { tokens }
    }

    /// Whether `token` is one of the tokens of this snapshot.
    pub fn accepts(&self, token: u128) -> (r: bool)
        ensures
            r == self.tokens@.contains(token),
    {
        crate::job_handler::token_is_valid(&self.tokens, token)
    }
}

} // verus!
