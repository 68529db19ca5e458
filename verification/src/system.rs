//! The command line that runs a benchmark binary.
use crate::cli::SandboxMode;
use vstd::prelude::*;

verus! {

/// A program to start and the arguments to start it with.
#[derive(Debug, Clone, PartialEq, Eq)]
pub struct Invocation {
    pub program: String,
    pub args: Vec<String>,
}

pub struct InvocationView {
    pub program: Seq<char>,
    pub args: Seq<Seq<char>>,
}

impl View for Invocation {
    type V = InvocationView;

    open spec fn view(&self) -> InvocationView {
        InvocationView { program: self.program@, args: crate::text::strings_view(self.args@) }
    }
}

/// The permission bits of a binary under test: its owner may execute it, and
/// nobody may read or write it.
pub const EXECUTE_ONLY: u32 = 0o100;

/// The arguments, each as a sequence of characters.
pub open spec fn args_view(args: Seq<&str>) -> Seq<Seq<char>> {
    Seq::new(args.len(), |i: int| args[i]@)
}

/// The name of the isolation wrapper.
pub open spec fn wrapper_program() -> Seq<char> {
    "nsjail"@
}

/// What the isolation wrapper is told before the command. It runs the command
/// once, silently, as a user and group of no standing, and of the file system
/// it shows the command read-only: the shared libraries, a source of random
/// numbers and the binary itself. It opens no network.
pub open spec fn wrapper_args(command: Seq<char>) -> Seq<Seq<char>> {
    seq![
        "--really_quiet"@,
        "--mode"@,
        "o"@,
        "--user"@,
        "99999"@,
        "--group"@,
        "99999"@,
        "--keep_caps"@,
        "-R"@,
        "/usr/lib"@,
        "-R"@,
        "/lib"@,
        "-R"@,
        "/dev/urandom"@,
        "-R"@,
        command,
        "--"@,
        command,
    ]
}

/// The command line of `run_sandboxed_binary`.
pub open spec fn sandboxed(
    sandbox_mode: SandboxMode,
    command: Seq<char>,
    args: Seq<Seq<char>>,
) -> InvocationView {
    match sandbox_mode {
        SandboxMode::NsjailComplete => InvocationView {
            program: wrapper_program(),
            args: wrapper_args(command) + args,
        },
        SandboxMode::NoSandbox => InvocationView { program: command, args },
    }
}

/// The command line that runs `command` with `args` under `sandbox_mode`:
/// inside the isolation wrapper, which gets its own arguments, then `--`, the
/// command and the command's arguments; or, without a sandbox, the command as
/// it is.
pub fn run_sandboxed_binary(sandbox_mode: SandboxMode, command: &str, args: &[&str]) -> (r:
    Invocation)
    ensures
        r@ == sandboxed(sandbox_mode, command@, args_view(args@)),
{
    let mut all: Vec<String> = Vec::new();
    let program = match sandbox_mode {
        SandboxMode::NsjailComplete => {
            all.push("--really_quiet".to_owned());
            all.push("--mode".to_owned());
            all.push("o".to_owned());
            all.push("--user".to_owned());
            all.push("99999".to_owned());
            all.push("--group".to_owned());
            all.push("99999".to_owned());
            all.push("--keep_caps".to_owned());
            all.push("-R".to_owned());
            all.push("/usr/lib".to_owned());
            all.push("-R".to_owned());
            all.push("/lib".to_owned());
            all.push("-R".to_owned());
            all.push("/dev/urandom".to_owned());
            all.push("-R".to_owned());
            all.push(command.to_owned());
            all.push("--".to_owned());
            all.push(command.to_owned());
            proof {
                assert(crate::text::strings_view(all@) =~= wrapper_args(command@));
            }
            "nsjail".to_owned()
        },
        SandboxMode::NoSandbox => {
            command.to_owned()
        },
    };
    let ghost head = crate::text::strings_view(all@);
    let mut i: usize = 0;
    while i < args.len()
        invariant
            i <= args.len(),
            crate::text::strings_view(all@) == head + args_view(args@).take(i as int),
        decreases args.len() - i,
    {
        let ghost before = crate::text::strings_view(all@);
        all.push(args[i].to_owned());
        proof {
            assert(crate::text::strings_view(all@) =~= before.push(args[i as int]@));
        }
        i += 1;
    }
    proof {
        assert(args_view(args@).take(i as int) =~= args_view(args@));
    }
    Invocation { program, args: all }
}

} // verus!
