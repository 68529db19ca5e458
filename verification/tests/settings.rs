use ussal::cli::{LogFormat, Mode, OrchestratorArgs, SandboxMode};
use ussal::config::{Config, ConfigRun, OrchestratorConfig};

fn domains() -> Vec<String> {
    vec!["bench.example.org".to_owned(), "b.example.org".to_owned()]
}

#[test]
fn orchestrator_modes_give_their_own_options() {
    let mode = Mode::Orchestrator {
        domains: domains(),
        email: Some("ops@example.org".to_owned()),
        port: Some(8443),
        disable_https: true,
    };
    assert_eq!(
        mode.orchestrator_args(),
        OrchestratorArgs {
            domains: domains(),
            email: Some("ops@example.org".to_owned()),
            port: Some(8443),
            disable_https: true,
        }
    );
    let mode = Mode::OrchestratorAndRunner {
        domains: vec![],
        email: None,
        port: None,
        disable_https: false,
    };
    assert_eq!(
        mode.orchestrator_args(),
        OrchestratorArgs { domains: vec![], email: None, port: None, disable_https: false }
    );
}

#[test]
fn installation_serves_https_on_the_default_port() {
    let mode = Mode::DestructivelyInstallRunner { domains: domains(), email: None };
    assert_eq!(
        mode.orchestrator_args(),
        OrchestratorArgs { domains: domains(), email: None, port: None, disable_https: false }
    );
}

#[test]
fn port_defaults_depend_on_https() {
    let mut args = OrchestratorArgs { domains: vec![], email: None, port: None, disable_https: false };
    assert_eq!(args.effective_port(), 443);
    args.disable_https = true;
    assert_eq!(args.effective_port(), 8000);
    args.port = Some(0);
    assert_eq!(args.effective_port(), 0);
    args.disable_https = false;
    args.port = Some(65535);
    assert_eq!(args.effective_port(), 65535);
}

#[test]
fn modes_and_formats_can_be_compared() {
    assert_ne!(LogFormat::Human, LogFormat::Json);
    assert_ne!(SandboxMode::NsjailComplete, SandboxMode::NoSandbox);
    let runner = Mode::Runner { address: "ws://x".to_owned(), machine_type: "x86".to_owned() };
    assert_eq!(runner.clone(), runner);
}

#[test]
fn settings_are_read_from_the_given_path_or_the_default() {
    assert_eq!(Config::path(None), "ussal.json");
    assert_eq!(Config::path(Some("ussal-test.json")), "ussal-test.json");
    assert_eq!(Config::path(Some("")), "");
}

#[test]
fn endpoint_is_the_one_given_or_the_one_of_the_settings() {
    let config = Config {
        title: "Benches".to_owned(),
        address: "wss://bench.example.org/run_job".to_owned(),
        runs: vec![ConfigRun {
            machine_type: "x86".to_owned(),
            target_triple: "x86_64-unknown-linux-gnu".to_owned(),
        }],
        reset_ci_history: 0,
    };
    assert_eq!(config.endpoint(None), "wss://bench.example.org/run_job");
    assert_eq!(config.endpoint(Some("ws://localhost:8000/run_job")), "ws://localhost:8000/run_job");
}

#[test]
fn generated_settings_hold_one_random_token() {
    let a = OrchestratorConfig::generate();
    let b = OrchestratorConfig::generate();
    assert_eq!(a.tokens.len(), 1);
    assert_eq!(uuid::Uuid::from_u128(a.tokens[0]).get_version_num(), 4);
    assert_eq!(a.tokens[0] & 0xF000_C000_0000_0000_0000, 0x4000_8000_0000_0000_0000);
    assert_ne!(a.tokens, b.tokens);
    assert!(a.accepts(a.tokens[0]));
    assert!(!a.accepts(b.tokens[0]));
}

#[test]
fn snapshot_accepts_exactly_its_tokens() {
    let token = uuid::Uuid::parse_str("2d58efc6-6c95-47c5-968d-55aa923b4cc9").unwrap().as_u128();
    let config = OrchestratorConfig { tokens: vec![1, token] };
    assert!(config.accepts(token));
    assert!(config.accepts(1));
    assert!(!config.accepts(0xdeaddead_dead_dead_dead_deaddeaddead));
    assert!(!OrchestratorConfig { tokens: vec![] }.accepts(token));
}

#[test]
fn user_is_found_by_the_start_of_its_line() {
    let passwd = "root:x:0:0:root:/root:/bin/bash\nussal-server:x:1001:1001::/home/ussal-server:/bin/sh\n";
    assert!(ussal::install::user_exists(passwd, "root"));
    assert!(ussal::install::user_exists(passwd, "ussal-server"));
    assert!(!ussal::install::user_exists(passwd, "ussal"));
    assert!(!ussal::install::user_exists(passwd, "ussal-sandbox"));
    assert!(!ussal::install::user_exists(passwd, "x"));
    assert!(!ussal::install::user_exists("", "root"));
    assert!(!ussal::install::user_exists("root", "root"));
    assert!(ussal::install::user_exists("a:\r\nroot:", "root"));
    assert!(ussal::install::user_exists(":x", ""));
}

#[test]
fn service_starts_the_program_for_its_domains() {
    let mut args = OrchestratorArgs { domains: domains(), email: None, port: Some(1), disable_https: true };
    assert_eq!(
        ussal::install::start_command(&args),
        "/home/ussal-server/ussal-server orchestrator-and-runner --port 443 --domains bench.example.org b.example.org "
    );
    args.email = Some("ops@example.org".to_owned());
    args.domains = vec!["one.example.org".to_owned()];
    assert_eq!(
        ussal::install::start_command(&args),
        "/home/ussal-server/ussal-server orchestrator-and-runner --port 443 --domains one.example.org --email ops@example.org"
    );
    args.domains = vec![];
    args.email = None;
    assert_eq!(
        ussal::install::start_command(&args),
        "/home/ussal-server/ussal-server orchestrator-and-runner --port 443 --domains  "
    );
}

#[test]
fn service_file_names_the_command_to_run() {
    assert_eq!(
        ussal::install::service_file("/bin/true --x"),
        "
[Unit]
Description=Ussal orchestrator and runner
After=network.target
StartLimitIntervalSec=0

[Service]
AmbientCapabilities=CAP_NET_BIND_SERVICE
Type=simple
Restart=always
RestartSec=1
User=ussal-server
ExecStart=/bin/true --x

[Install]
WantedBy=multi-user.target
"
    );
}
