//! What the installation of the program as a service writes and looks for.
use crate::cli::{OrchestratorArgs, OrchestratorArgsView};
use crate::text::{chars_of, copy_span, line_spans, lines, occurs_at, occurs_at_chars, spans_view};
use vstd::prelude::*;
use vstd::string::StringExecFns;

verus! {

/// What a line of the list of users starts with when it is the entry of
/// `name`: the name and a colon.
pub open spec fn user_prefix(name: Seq<char>) -> Seq<char> {
    name.push(':')
}

/// Whether one of the first `n` lines is the entry of `name`.
pub open spec fn has_user_upto(ls: Seq<Seq<char>>, name: Seq<char>, n: int) -> bool
    decreases n,
{
    if n <= 0 {
        false
    } else {
        has_user_upto(ls, name, n - 1) || occurs_at(ls[n - 1], user_prefix(name), 0)
    }
}

/// Whether the list of users `passwd`, one entry per line, holds an entry of
/// `name`.
pub open spec fn has_user(passwd: Seq<char>, name: Seq<char>) -> bool {
    has_user_upto(lines(passwd), name, lines(passwd).len() as int)
}

/// Whether the list of users `passwd` holds an entry of `name`.
pub fn user_exists(passwd: &str, name: &str) -> (r: bool)
    ensures
        r == has_user(passwd@, name@),
{
    let chars = chars_of(passwd);
    let spans = line_spans(&chars);
    let mut prefix = chars_of(name);
    prefix.push(':');
    let ghost ls = lines(passwd@);
    let mut i: usize = 0;
    while i < spans.len()
        invariant
            i <= spans.len(),
            chars@ == passwd@,
            prefix@ == user_prefix(name@),
            ls == lines(passwd@),
            spans_view(chars@, spans@) == ls,
            forall|k: int|
                0 <= k < spans.len() ==> (#[trigger] spans[k]).start <= spans[k].end <= chars.len(),
            !has_user_upto(ls, name@, i as int),
        decreases spans.len() - i,
    {
        let span = spans[i];
        let line = copy_span(&chars, span.start, span.end);
        proof {
            assert(ls[i as int] == line@);
        }
        if prefix.len() <= line.len() && occurs_at_chars(&line, &prefix, 0) {
            proof {
                lemma_user_stays(ls, name@, i as int + 1, spans.len() as int);
            }
            return true;
        }
        i += 1;
    }
    false
}

/// An entry that is among the first `n` lines is among any more lines.
proof fn lemma_user_stays(ls: Seq<Seq<char>>, name: Seq<char>, n: int, m: int)
    requires
        n <= m,
        has_user_upto(ls, name, n),
    ensures
        has_user_upto(ls, name, m),
    decreases m - n,
{
    if n < m {
        lemma_user_stays(ls, name, n, m - 1);
    }
}

/// The first `n` of `parts`, with one space between each two.
pub open spec fn joined_upto(parts: Seq<Seq<char>>, n: int) -> Seq<char>
    decreases n,
{
    if n <= 0 {
        Seq::empty()
    } else if n == 1 {
        parts[0]
    } else {
        joined_upto(parts, n - 1) + " "@ + parts[n - 1]
    }
}

/// The option that hands the email on, or nothing without an email.
pub open spec fn email_flag(email: Option<Seq<char>>) -> Seq<char> {
    match email {
        Some(address) => "--email "@ + address,
        None => Seq::empty(),
    }
}

/// The command that the service runs.
pub open spec fn start_command_view(args: OrchestratorArgsView) -> Seq<char> {
    "/home/ussal-server/ussal-server orchestrator-and-runner --port 443 --domains "@ + joined_upto(
        args.domains,
        args.domains.len() as int,
    ) + " "@ + email_flag(args.email)
}

/// The command that the service runs: the installed program as orchestrator
/// and runner on port 443, for the domains and with the email of `args`.
pub fn start_command(args: &OrchestratorArgs) -> (r: String)
    ensures
        r@ == start_command_view(args@),
{
    let mut command =
        "/home/ussal-server/ussal-server orchestrator-and-runner --port 443 --domains ".to_owned();
    let ghost head = command@;
    let ghost domains = args@.domains;
    let mut i: usize = 0;
    while i < args.domains.len()
        invariant
            i <= args.domains.len(),
            domains == args@.domains,
            command@ == head + joined_upto(domains, i as int),
        decreases args.domains.len() - i,
    {
        if i > 0 {
            command.append(" ");
        }
        command.append(args.domains[i].as_str());
        proof {
            assert(domains[i as int] == args.domains[i as int]@);
        }
        i += 1;
    }
    command.append(" ");
    match &args.email {
        Some(address) => {
            command.append("--email ");
            command.append(address.as_str());
        },
        None => {},
    }
    command
}

/// The unit that makes the program a service, started with `start`.
pub open spec fn service_file_view(start: Seq<char>) -> Seq<char> {
    "\n[Unit]\nDescription=Ussal orchestrator and runner\nAfter=network.target\nStartLimitIntervalSec=0\n\n[Service]\nAmbientCapabilities=CAP_NET_BIND_SERVICE\nType=simple\nRestart=always\nRestartSec=1\nUser=ussal-server\nExecStart="@
        + start + "\n\n[Install]\nWantedBy=multi-user.target\n"@
}

/// The unit that makes the program a service: it runs `start` as the user of
/// the service, may bind the low ports, and is started again whenever it
/// ends.
pub fn service_file(start: &str) -> (r: String)
    ensures
        r@ == service_file_view(start@),
{
    let mut unit =
        "\n[Unit]\nDescription=Ussal orchestrator and runner\nAfter=network.target\nStartLimitIntervalSec=0\n\n[Service]\nAmbientCapabilities=CAP_NET_BIND_SERVICE\nType=simple\nRestart=always\nRestartSec=1\nUser=ussal-server\nExecStart=".to_owned();
    unit.append(start);
    unit.append("\n\n[Install]\nWantedBy=multi-user.target\n");
    unit
}

} // verus!
