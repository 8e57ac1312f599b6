//! The sandbox for Python scripts: an environment is prepared with consent, a
//! script then runs without network, with a writable workspace only, under
//! limits. Where the host cannot do that, the sandbox fails closed.

use vstd::prelude::*;

use crate::config::SandboxConfig;
use crate::error::{ApiError, ApiErrorKind, ApiErrorView};
use crate::llm::sse::decode_lossy;
use crate::paths::join_path;
use crate::sandbox::envprep::normalize_deps;
use crate::sandbox::exec::{RunSpec, RunSpecView};
use crate::sandbox::limits::Limits;
use crate::text::trimmed;

pub mod envprep;
pub mod exec;
pub mod laws;
pub mod limits;
pub mod workspace;

verus! {

/// What the host must offer.
pub const HOST_HELP: &'static str = "Kaeru's Python sandbox needs Linux with unprivileged user namespaces and the\n`bwrap` (bubblewrap) and `uv` tools on PATH. Install them, e.g.\n  Arch:            pacman -S bubblewrap uv\n  Debian/Ubuntu:   apt install bubblewrap uv\n  Fedora:          dnf install bubblewrap uv\nIf your kernel gates user namespaces, enable them\n(sysctl kernel.unprivileged_userns_clone=1).";

/// The interpreter that is used where none is on the path.
pub const FALLBACK_PYTHON: &'static str = "/usr/bin/python3";

/// How a command of the host ended.
#[derive(Debug)]
pub enum HostRun {
    Success,
    /// It failed, with what it wrote.
    Failed(Vec<u8>),
    /// It could not be started.
    NotStarted(String),
}

/// The supervisor: the directories, the interpreter and the limits.
#[derive(Debug)]
pub struct Sandbox {
    workspace: String,
    envs: String,
    read_paths: Vec<String>,
    python: String,
    limits: Limits,
}

/// The content of a [`Sandbox`].
#[verifier::ext_equal]
pub struct SandboxState {
    pub workspace: Seq<char>,
    pub envs: Seq<char>,
    pub read_paths: Seq<Seq<char>>,
    pub python: Seq<char>,
    pub limits: Limits,
}

impl View for Sandbox {
    type V = SandboxState;

    closed spec fn view(&self) -> SandboxState {
        SandboxState {
            workspace: self.workspace@,
            envs: self.envs@,
            read_paths: crate::text::texts(self.read_paths@),
            python: self.python@,
            limits: self.limits,
        }
    }
}

/// The interpreters that are tried: one in each directory of the path, then the
/// fallback.
pub open spec fn pythons(dirs: Seq<Seq<char>>) -> Seq<Seq<char>> {
    dirs.map_values(|d: Seq<char>| crate::paths::joined(d, "python3"@)).push(FALLBACK_PYTHON@)
}

/// The interpreters that are tried: one in each directory of the path, then the
/// fallback.
pub fn python_candidates(dirs: &Vec<String>) -> (r: Vec<String>)
    ensures
        crate::text::texts(r@) == pythons(crate::text::texts(dirs@)),
{
    let ghost all = crate::text::texts(dirs@);
    let mut out: Vec<String> = Vec::new();
    let mut i: usize = 0;
    while i < dirs.len()
        invariant
            i <= dirs.len(),
            all == crate::text::texts(dirs@),
            out@.len() == i,
            forall|k: int|
                0 <= k < i ==> (#[trigger] out@[k])@ == crate::paths::joined(all[k], "python3"@),
        decreases dirs.len() - i,
    {
        assert(all[i as int] == dirs@[i as int]@);
        out.push(join_path(dirs[i].as_str(), "python3"));
        i = i + 1;
    }
    out.push(FALLBACK_PYTHON.to_owned());
    assert(crate::text::texts(out@) =~= pythons(all));
    out
}

/// The place of the first file; the number of places where there is none.
pub open spec fn first_file(is_file: Seq<bool>, from: int) -> int
    decreases is_file.len() - from,
{
    if from < 0 || from >= is_file.len() || is_file[from] {
        from
    } else {
        first_file(is_file, from + 1)
    }
}

/// The first of the interpreters that is a file.
pub fn find_python(candidates: &Vec<String>, is_file: &Vec<bool>) -> (r: Result<String, ApiError>)
    requires
        candidates@.len() == is_file@.len(),
    ensures
        ({
            let i = first_file(is_file@, 0);
            if i < candidates@.len() {
                r matches Ok(p) && p@ == candidates@[i]@
            } else {
                r matches Err(e) && e@ == crate::error::failure(
                    ApiErrorKind::Config,
                    "python3 not found on PATH; the Python tool needs a system interpreter"@,
                )
            }
        }),
{
    let mut i: usize = 0;
    while i < candidates.len() && !is_file[i]
        invariant
            i <= candidates@.len() == is_file@.len(),
            first_file(is_file@, 0) == first_file(is_file@, i as int),
        decreases candidates.len() - i,
    {
        i = i + 1;
    }
    if i < candidates.len() {
        Ok(candidates[i].clone())
    } else {
        Err(
            ApiError::config(
                "python3 not found on PATH; the Python tool needs a system interpreter",
            ),
        )
    }
}

/// The paths that could be resolved, in their order.
pub open spec fn usable(paths: Seq<Option<Seq<char>>>) -> Seq<Seq<char>>
    decreases paths.len(),
{
    if paths.len() == 0 {
        seq![]
    } else {
        match paths.last() {
            Some(p) => usable(paths.drop_last()).push(p),
            None => usable(paths.drop_last()),
        }
    }
}

/// The texts of optional strings.
pub open spec fn opt_texts(v: Seq<Option<String>>) -> Seq<Option<Seq<char>>> {
    v.map_values(|o: Option<String>| crate::text::opt_text(o))
}

/// The words that show whether the sandbox works: the real thing, with a script
/// that does nothing.
pub open spec fn probe_words(python: Seq<char>) -> Seq<Seq<char>> {
    seq![
        "--unshare-all"@,
        "--new-session"@,
        "--die-with-parent"@,
        "--clearenv"@,
        "--ro-bind"@,
        "/usr"@,
        "/usr"@,
        "--ro-bind-try"@,
        "/bin"@,
        "/bin"@,
        "--ro-bind-try"@,
        "/lib"@,
        "/lib"@,
        "--ro-bind-try"@,
        "/lib64"@,
        "/lib64"@,
        "--ro-bind-try"@,
        "/sbin"@,
        "/sbin"@,
        "--ro-bind-try"@,
        "/etc"@,
        "/etc"@,
        "--proc"@,
        "/proc"@,
        "--dev"@,
        "/dev"@,
        "--tmpfs"@,
        "/tmp"@,
        "--setenv"@,
        "PATH"@,
        "/usr/bin:/bin"@,
        "--"@,
        python,
        "-c"@,
        "pass"@,
    ]
}

/// What a command wrote, for a message.
pub open spec fn complaint(stderr: Seq<u8>) -> Seq<char> {
    crate::text::trim(crate::llm::sse::lossy(stderr)) + "\n"@ + HOST_HELP@
}

/// What is wrong with a tool of the host.
pub open spec fn tool_fault(tool: Seq<char>, run: HostRun) -> Option<ApiErrorView> {
    match run {
        HostRun::Success => None,
        HostRun::Failed(stderr) => Some(
            crate::error::failure(
                ApiErrorKind::Config,
                "`"@ + tool + " --version` failed: "@ + complaint(stderr@),
            ),
        ),
        HostRun::NotStarted(cause) => Some(
            crate::error::failure(
                ApiErrorKind::Config,
                "cannot run `"@ + tool + "`: "@ + cause@ + "\n"@ + HOST_HELP@,
            ),
        ),
    }
}

/// What is wrong with the sandbox itself.
pub open spec fn probe_fault(run: HostRun) -> Option<ApiErrorView> {
    match run {
        HostRun::Success => None,
        HostRun::Failed(stderr) => Some(
            crate::error::failure(
                ApiErrorKind::Config,
                "bubblewrap cannot create the sandbox: "@ + complaint(stderr@),
            ),
        ),
        HostRun::NotStarted(cause) => Some(
            crate::error::failure(
                ApiErrorKind::Config,
                "bubblewrap probe failed to start: "@ + cause@ + "\n"@ + HOST_HELP@,
            ),
        ),
    }
}

/// What is wrong with the host: its tools, its interpreter, then the sandbox.
pub open spec fn host_fault(
    python: Seq<char>,
    bwrap: HostRun,
    uv: HostRun,
    python_is_file: bool,
    probe: HostRun,
) -> Option<ApiErrorView> {
    if tool_fault("bwrap"@, bwrap) is Some {
        tool_fault("bwrap"@, bwrap)
    } else if tool_fault("uv"@, uv) is Some {
        tool_fault("uv"@, uv)
    } else if !python_is_file {
        Some(
            crate::error::failure(
                ApiErrorKind::Config,
                "system Python "@ + python + " does not exist\n"@ + HOST_HELP@,
            ),
        )
    } else {
        probe_fault(probe)
    }
}

/// The sandbox runs only where everything works: a host with any fault is
/// refused.
pub proof fn host_check_fails_closed(
    python: Seq<char>,
    bwrap: HostRun,
    uv: HostRun,
    python_is_file: bool,
    probe: HostRun,
)
    requires
        host_fault(python, bwrap, uv, python_is_file, probe) is None,
    ensures
        bwrap is Success,
        uv is Success,
        python_is_file,
        probe is Success,
{
}

/// The message about what a command wrote.
fn complain(head: String, stderr: &Vec<u8>) -> (r: ApiError)
    ensures
        r@ == crate::error::failure(ApiErrorKind::Config, head@ + complaint(stderr@)),
{
    let mut message = head;
    message.append(trimmed(decode_lossy(stderr).as_str()).as_str());
    message.append("\n");
    message.append(HOST_HELP);
    assert(message@ =~= head@ + complaint(stderr@));
    ApiError::config(message.as_str())
}

/// Checks a tool of the host, given how it told its version.
pub fn check_tool(tool: &str, run: HostRun) -> (r: Result<(), ApiError>)
    ensures
        crate::error::error_of(r) == tool_fault(tool@, run),
{
    match run {
        HostRun::Success => Ok(()),
        HostRun::Failed(stderr) => {
            let mut head = "`".to_owned();
            head.append(tool);
            head.append(" --version` failed: ");
            Err(complain(head, &stderr))
        },
        HostRun::NotStarted(cause) => {
            let mut message = "cannot run `".to_owned();
            message.append(tool);
            message.append("`: ");
            message.append(cause.as_str());
            message.append("\n");
            message.append(HOST_HELP);
            Err(ApiError::config(message.as_str()))
        },
    }
}

/// Checks the sandbox itself, given how the probe went.
pub fn check_probe(run: HostRun) -> (r: Result<(), ApiError>)
    ensures
        crate::error::error_of(r) == probe_fault(run),
{
    match run {
        HostRun::Success => Ok(()),
        HostRun::Failed(stderr) => {
            let head = "bubblewrap cannot create the sandbox: ".to_owned();
            Err(complain(head, &stderr))
        },
        HostRun::NotStarted(cause) => {
            let mut message = "bubblewrap probe failed to start: ".to_owned();
            message.append(cause.as_str());
            message.append("\n");
            message.append(HOST_HELP);
            Err(ApiError::config(message.as_str()))
        },
    }
}

impl Sandbox {
    /// A supervisor of a configuration. `resolved` holds what each of the
    /// configured read paths resolves to; one that does not is left out.
    pub fn new(
        config: &SandboxConfig,
        envs: &str,
        resolved: &Vec<Option<String>>,
        python: &str,
    ) -> (r: Sandbox)
        ensures
            r@.workspace == config.workspace@,
            r@.envs == envs@,
            r@.read_paths == usable(opt_texts(resolved@)),
            r@.python == python@,
            r@.limits.wall_secs == config.timeout_secs,
            r@.limits.cpu_secs == crate::sandbox::limits::capped(config.timeout_secs + 5),
            r@.limits.memory_bytes == crate::sandbox::limits::capped(
                config.memory_mb * 1_048_576,
            ),
            r@.limits.fsize_bytes == crate::sandbox::limits::SANDBOX_FSIZE_BYTES,
    {
        let ghost all = opt_texts(resolved@);
        let mut read_paths: Vec<String> = Vec::new();
        let mut i: usize = 0;
        assert(all.take(0) =~= seq![]);
        assert(crate::text::texts(read_paths@) =~= seq![]);
        while i < resolved.len()
            invariant
                i <= resolved.len(),
                all == opt_texts(resolved@),
                crate::text::texts(read_paths@) == usable(all.take(i as int)),
            decreases resolved.len() - i,
        {
            assert(all.take(i + 1).drop_last() =~= all.take(i as int));
            assert(all.take(i + 1).last() == crate::text::opt_text(resolved@[i as int]));
            let ghost before = crate::text::texts(read_paths@);
            if let Some(p) = &resolved[i] {
                read_paths.push(p.clone());
                assert(crate::text::texts(read_paths@) =~= before.push(p@));
            }
            i = i + 1;
        }
        assert(all.take(i as int) =~= all);
        Sandbox {
            workspace: config.workspace.clone(),
            envs: envs.to_owned(),
            read_paths,
            python: python.to_owned(),
            limits: Limits::from_config(config),
        }
    }

    /// The directory that scripts can write.
    pub fn workspace(&self) -> (r: &str)
        ensures
            r@ == self@.workspace,
    {
        self.workspace.as_str()
    }

    /// The directory of the prepared environments.
    pub fn envs(&self) -> (r: &str)
        ensures
            r@ == self@.envs,
    {
        self.envs.as_str()
    }

    /// The system's interpreter.
    pub fn python(&self) -> (r: &str)
        ensures
            r@ == self@.python,
    {
        self.python.as_str()
    }

    /// Further paths that scripts can read.
    pub fn read_paths(&self) -> (r: &Vec<String>)
        ensures
            crate::text::texts(r@) == self@.read_paths,
    {
        &self.read_paths
    }

    /// The limits of a run.
    pub fn limits(&self) -> (r: Limits)
        ensures
            r == self@.limits,
    {
        self.limits
    }

    /// The words of a run that shows whether the sandbox works.
    pub fn probe_args(&self) -> (r: Vec<String>)
        ensures
            crate::text::texts(r@) == probe_words(self@.python),
    {
        let r = vec![
            "--unshare-all".to_owned(),
            "--new-session".to_owned(),
            "--die-with-parent".to_owned(),
            "--clearenv".to_owned(),
            "--ro-bind".to_owned(),
            "/usr".to_owned(),
            "/usr".to_owned(),
            "--ro-bind-try".to_owned(),
            "/bin".to_owned(),
            "/bin".to_owned(),
            "--ro-bind-try".to_owned(),
            "/lib".to_owned(),
            "/lib".to_owned(),
            "--ro-bind-try".to_owned(),
            "/lib64".to_owned(),
            "/lib64".to_owned(),
            "--ro-bind-try".to_owned(),
            "/sbin".to_owned(),
            "/sbin".to_owned(),
            "--ro-bind-try".to_owned(),
            "/etc".to_owned(),
            "/etc".to_owned(),
            "--proc".to_owned(),
            "/proc".to_owned(),
            "--dev".to_owned(),
            "/dev".to_owned(),
            "--tmpfs".to_owned(),
            "/tmp".to_owned(),
            "--setenv".to_owned(),
            "PATH".to_owned(),
            "/usr/bin:/bin".to_owned(),
            "--".to_owned(),
            self.python.clone(),
            "-c".to_owned(),
            "pass".to_owned(),
        ];
        assert(crate::text::texts(r@) =~= probe_words(self@.python));
        r
    }

    /// Checks that the host can run the sandbox, given how its tools told their
    /// versions and how the probe went. Any fault is an error that says what
    /// the host must offer.
    pub fn check_host(
        &self,
        bwrap: HostRun,
        uv: HostRun,
        python_is_file: bool,
        probe: HostRun,
    ) -> (r: Result<(), ApiError>)
        ensures
            crate::error::error_of(r) == host_fault(
                self@.python,
                bwrap,
                uv,
                python_is_file,
                probe,
            ),
    {
        match check_tool("bwrap", bwrap) {
            Ok(()) => {},
            Err(e) => {
                return Err(e);
            },
        }
        match check_tool("uv", uv) {
            Ok(()) => {},
            Err(e) => {
                return Err(e);
            },
        }
        if !python_is_file {
            let mut message = "system Python ".to_owned();
            message.append(self.python.as_str());
            message.append(" does not exist\n");
            message.append(HOST_HELP);
            return Err(ApiError::config(message.as_str()));
        }
        check_probe(probe)
    }

    /// Whether a script with these dependencies needs a prepared environment.
    pub fn needs_env(&self, deps: &Vec<String>) -> (r: bool)
        ensures
            r == (crate::sandbox::envprep::normalized(crate::text::texts(deps@)).len() > 0),
    {
        let set = normalize_deps(deps);
        let ghost views = crate::text::texts(set@);
        assert(views.len() == set@.len());
        set.len() > 0
    }

    /// What one run needs; `env` is the directory of the prepared environment.
    pub fn run_spec<'a>(&'a self, env: Option<&'a str>, network: bool) -> (r: RunSpec<'a>)
        ensures
            r@ == (RunSpecView {
                workspace: self@.workspace,
                env: match env {
                    Some(e) => Some(e@),
                    None => None,
                },
                read_paths: self@.read_paths,
                python: self@.python,
                network: network,
            }),
            r.limits == self@.limits,
    {
        RunSpec {
            workspace: self.workspace.as_str(),
            env,
            read_paths: &self.read_paths,
            python: self.python.as_str(),
            network,
            limits: self.limits,
        }
    }
}

} // verus!
