//! The modes the program runs in and the options that go with them.
use crate::text::{clone_optional, clone_strings, optional_view, strings_view};
use vstd::prelude::*;

verus! {

/// What the program is started as.
#[derive(Debug, Clone, PartialEq, Eq)]
pub enum Mode {
    /// Take requests from the orchestrator at `address`, as a runner of
    /// `machine_type`.
    Runner { address: String, machine_type: String },
    /// Accept jobs and hand them to the runners that register.
    Orchestrator { domains: Vec<String>, email: Option<String>, port: Option<u16>, disable_https: bool },
    /// Accept jobs and run them on this machine.
    OrchestratorAndRunner {
        domains: Vec<String>,
        email: Option<String>,
        port: Option<u16>,
        disable_https: bool,
    },
    /// Install the program on this machine as a service.
    DestructivelyInstallRunner { domains: Vec<String>, email: Option<String> },
}

/// The options of the modes that serve jobs.
#[derive(Debug, Clone, PartialEq, Eq)]
pub struct OrchestratorArgs {
    pub domains: Vec<String>,
    pub email: Option<String>,
    pub port: Option<u16>,
    pub disable_https: bool,
}

/// How the log is written.
#[derive(Debug, Clone, Copy, PartialEq, Eq)]
pub enum LogFormat {
    Human,
    Json,
}

/// How far a benchmark binary is shut in when it runs.
#[derive(Debug, Clone, Copy, PartialEq, Eq)]
pub enum SandboxMode {
    /// Inside the isolation wrapper: no network, and of the file system only
    /// what the binary needs to start.
    NsjailComplete,
    /// Not at all. Never for binaries from strangers.
    NoSandbox,
}

pub struct OrchestratorArgsView {
    pub domains: Seq<Seq<char>>,
    pub email: Option<Seq<char>>,
    pub port: Option<u16>,
    pub disable_https: bool,
}

impl View for OrchestratorArgs {
    type V = OrchestratorArgsView;

    open spec fn view(&self) -> OrchestratorArgsView {
        OrchestratorArgsView {
            domains: strings_view(self.domains@),
            email: optional_view(self.email),
            port: self.port,
            disable_https: self.disable_https,
        }
    }
}

impl Mode {
    /// The options that `orchestrator_args` returns for this mode.
    pub open spec fn spec_orchestrator_args(self) -> OrchestratorArgsView {
        match self {
            Mode::Orchestrator { domains, email, port, disable_https } => OrchestratorArgsView {
                domains: strings_view(domains@),
                email: optional_view(email),
                port,
                disable_https,
            },
            Mode::OrchestratorAndRunner {
                domains,
                email,
                port,
                disable_https,
            } => OrchestratorArgsView {
                domains: strings_view(domains@),
                email: optional_view(email),
                port,
                disable_https,
            },
            Mode::DestructivelyInstallRunner { domains, email } => OrchestratorArgsView {
                domains: strings_view(domains@),
                email: optional_view(email),
                port: None,
                disable_https: false,
            },
            Mode::Runner { .. } => OrchestratorArgsView {
                domains: Seq::empty(),
                email: None,
                port: None,
                disable_https: false,
            },
        }
    }

    /// The options of a mode that serves jobs. The two orchestrator modes
    /// give their own; the installation serves on the default port with
    /// HTTPS. A runner has no such options: it must not ask.
    pub fn orchestrator_args(&self) -> (r: OrchestratorArgs)
        requires
            !(self is Runner),
        ensures
            r@ == self.spec_orchestrator_args(),
    {
        match self {
            Mode::Orchestrator { domains, email, port, disable_https } => OrchestratorArgs {
                domains: clone_strings(domains),
                email: clone_optional(email),
                port: *port,
                disable_https: *disable_https,
            },
            Mode::OrchestratorAndRunner { domains, email, port, disable_https } => OrchestratorArgs {
                domains: clone_strings(domains),
                email: clone_optional(email),
                port: *port,
                disable_https: *disable_https,
            },
            Mode::DestructivelyInstallRunner { email, domains } => OrchestratorArgs {
                email: clone_optional(email),
                domains: clone_strings(domains),
                port: None,
                disable_https: false,
            },
            Mode::Runner { .. } => {
                proof {
                    assert(false);
                }
                OrchestratorArgs { domains: Vec::new(), email: None, port: None, disable_https: false }
            },
        }
    }
}

impl OrchestratorArgsView {
    /// The port that is served: the one given, else 8000 without HTTPS and 443
    /// with it.
    pub open spec fn effective_port(self) -> u16 {
        match self.port {
            Some(port) => port,
            None => if self.disable_https {
                8000
            } else {
                443
            },
        }
    }
}

impl OrchestratorArgs {
    /// The port that is served: the one given, else 8000 without HTTPS and 443
    /// with it.
    pub fn effective_port(&self) -> (r: u16)
        ensures
            r == self@.effective_port(),
    {
        match self.port {
            Some(port) => port,
            None => if self.disable_https {
                8000
            } else {
                443
            },
        }
    }
}

} // verus!
