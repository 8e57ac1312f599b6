//! Running one script: the command line of the sandbox, the bounded capture of
//! what the script writes, and the outcome.

use vstd::prelude::*;

use crate::error::{ApiError, ApiErrorKind};
use crate::llm::sse::decode_lossy;
use crate::paths::parent_dir;
use crate::sandbox::limits::Limits;

verus! {

/// How much of a stream is kept, in bytes. The stream is read on beyond it, so
/// that the script never blocks.
pub const MAX_STREAM_BYTES: usize = 65_536;

/// Where a prepared environment is mounted.
pub const ENV_MOUNT: &'static str = "/opt/env";

/// Where the workspace is mounted.
pub const WORKSPACE_MOUNT: &'static str = "/workspace";

/// What one run needs.
#[derive(Debug)]
pub struct RunSpec<'a> {
    pub workspace: &'a str,
    /// The prepared environment; none for a script without dependencies, which
    /// uses the system's interpreter.
    pub env: Option<&'a str>,
    /// Further paths that can be read.
    pub read_paths: &'a Vec<String>,
    /// The system's interpreter.
    pub python: &'a str,
    /// Whether the network is shared.
    pub network: bool,
    pub limits: Limits,
}

/// The content of a [`RunSpec`].
#[verifier::ext_equal]
pub struct RunSpecView {
    pub workspace: Seq<char>,
    pub env: Option<Seq<char>>,
    pub read_paths: Seq<Seq<char>>,
    pub python: Seq<char>,
    pub network: bool,
}

impl<'a> View for RunSpec<'a> {
    type V = RunSpecView;

    open spec fn view(&self) -> RunSpecView {
        RunSpecView {
            workspace: self.workspace@,
            env: match self.env {
                Some(e) => Some(e@),
                None => None,
            },
            read_paths: crate::text::texts(self.read_paths@),
            python: self.python@,
            network: self.network,
        }
    }
}

/// One option of the sandbox.
#[derive(Debug)]
pub enum SandboxOption {
    /// New namespaces for everything.
    UnshareAll,
    /// A session of its own.
    NewSession,
    /// No life beyond the supervisor's.
    DieWithParent,
    /// An empty environment.
    ClearEnv,
    /// The network of the host.
    ShareNet,
    /// A path that can be read, if it is there.
    ReadOnlyTry(String),
    /// A directory that can be read in another place.
    ReadOnly { from: String, to: &'static str },
    /// A directory that can be written, in another place.
    Writable { from: String, to: &'static str },
    /// A mount of a kind of its own: its option and its place.
    Special { option: &'static str, place: &'static str },
    /// The root becomes read-only.
    RootReadOnly,
    /// The directory the script starts in.
    ChangeDir(&'static str),
    /// A variable of the environment.
    SetEnv { key: &'static str, value: String },
}

/// The content of a [`SandboxOption`].
#[verifier::ext_equal]
pub enum OptionView {
    UnshareAll,
    NewSession,
    DieWithParent,
    ClearEnv,
    ShareNet,
    ReadOnlyTry(Seq<char>),
    ReadOnly { from: Seq<char>, to: Seq<char> },
    Writable { from: Seq<char>, to: Seq<char> },
    Special { option: Seq<char>, place: Seq<char> },
    RootReadOnly,
    ChangeDir(Seq<char>),
    SetEnv { key: Seq<char>, value: Seq<char> },
}

impl View for SandboxOption {
    type V = OptionView;

    open spec fn view(&self) -> OptionView {
        match self {
            SandboxOption::UnshareAll => OptionView::UnshareAll,
            SandboxOption::NewSession => OptionView::NewSession,
            SandboxOption::DieWithParent => OptionView::DieWithParent,
            SandboxOption::ClearEnv => OptionView::ClearEnv,
            SandboxOption::ShareNet => OptionView::ShareNet,
            SandboxOption::ReadOnlyTry(p) => OptionView::ReadOnlyTry(p@),
            SandboxOption::ReadOnly { from, to } => OptionView::ReadOnly { from: from@, to: to@ },
            SandboxOption::Writable { from, to } => OptionView::Writable { from: from@, to: to@ },
            SandboxOption::Special { option, place } => OptionView::Special {
                option: option@,
                place: place@,
            },
            SandboxOption::RootReadOnly => OptionView::RootReadOnly,
            SandboxOption::ChangeDir(d) => OptionView::ChangeDir(d@),
            SandboxOption::SetEnv { key, value } => OptionView::SetEnv {
                key: key@,
                value: value@,
            },
        }
    }
}

/// The words of an option on the command line.
pub open spec fn option_words(o: OptionView) -> Seq<Seq<char>> {
    match o {
        OptionView::UnshareAll => seq!["--unshare-all"@],
        OptionView::NewSession => seq!["--new-session"@],
        OptionView::DieWithParent => seq!["--die-with-parent"@],
        OptionView::ClearEnv => seq!["--clearenv"@],
        OptionView::ShareNet => seq!["--share-net"@],
        OptionView::ReadOnlyTry(p) => seq!["--ro-bind-try"@, p, p],
        OptionView::ReadOnly { from, to } => seq!["--ro-bind"@, from, to],
        OptionView::Writable { from, to } => seq!["--bind"@, from, to],
        OptionView::Special { option, place } => seq![option, place],
        OptionView::RootReadOnly => seq!["--remount-ro"@, "/"@],
        OptionView::ChangeDir(d) => seq!["--chdir"@, d],
        OptionView::SetEnv { key, value } => seq!["--setenv"@, key, value],
    }
}

/// The words of options, one after the other.
pub open spec fn all_words(options: Seq<OptionView>) -> Seq<Seq<char>>
    decreases options.len(),
{
    if options.len() == 0 {
        seq![]
    } else {
        all_words(options.drop_last()) + option_words(options.last())
    }
}

/// What is shut off.
pub open spec fn isolation(network: bool) -> Seq<OptionView> {
    seq![
        OptionView::UnshareAll,
        OptionView::NewSession,
        OptionView::DieWithParent,
        OptionView::ClearEnv,
    ] + if network {
        seq![OptionView::ShareNet]
    } else {
        seq![]
    }
}

/// The system's directories and the mounts of a kind of their own. They come
/// before the other paths, which may lie below them.
pub open spec fn system_mounts() -> Seq<OptionView> {
    seq![
        OptionView::ReadOnlyTry("/usr"@),
        OptionView::ReadOnlyTry("/bin"@),
        OptionView::ReadOnlyTry("/lib"@),
        OptionView::ReadOnlyTry("/lib64"@),
        OptionView::ReadOnlyTry("/sbin"@),
        OptionView::ReadOnlyTry("/etc"@),
        OptionView::Special { option: "--proc"@, place: "/proc"@ },
        OptionView::Special { option: "--dev"@, place: "/dev"@ },
        OptionView::Special { option: "--tmpfs"@, place: "/tmp"@ },
    ]
}

/// The further paths and the prepared environment, which can be read only.
pub open spec fn read_mounts(s: RunSpecView) -> Seq<OptionView> {
    s.read_paths.map_values(|p: Seq<char>| OptionView::ReadOnlyTry(p)) + match s.env {
        Some(e) => seq![OptionView::ReadOnly { from: e, to: ENV_MOUNT@ }],
        None => seq![],
    }
}

/// The workspace, and the root made read-only after all mounts.
pub open spec fn work_mount(s: RunSpecView) -> Seq<OptionView> {
    seq![
        OptionView::Writable { from: s.workspace, to: WORKSPACE_MOUNT@ },
        OptionView::RootReadOnly,
        OptionView::ChangeDir(WORKSPACE_MOUNT@),
    ]
}

/// The directory of the interpreter.
pub open spec fn bin_dir(s: RunSpecView) -> Seq<char> {
    match s.env {
        Some(_) => ENV_MOUNT@ + "/bin"@,
        None => match crate::paths::parent_of(s.python) {
            Some(p) => p,
            None => "/usr/bin"@,
        },
    }
}

/// The variables of the script's environment.
pub open spec fn variables(s: RunSpecView) -> Seq<OptionView> {
    seq![
        OptionView::SetEnv { key: "PATH"@, value: bin_dir(s) + ":/usr/bin:/bin"@ },
        OptionView::SetEnv { key: "HOME"@, value: "/tmp"@ },
        OptionView::SetEnv { key: "LANG"@, value: "C.UTF-8"@ },
        OptionView::SetEnv { key: "LC_ALL"@, value: "C.UTF-8"@ },
        OptionView::SetEnv { key: "PYTHONDONTWRITEBYTECODE"@, value: "1"@ },
        OptionView::SetEnv { key: "PYTHONUNBUFFERED"@, value: "1"@ },
        OptionView::SetEnv { key: "MPLBACKEND"@, value: "Agg"@ },
        OptionView::SetEnv { key: "KAERU_WORKSPACE"@, value: WORKSPACE_MOUNT@ },
    ]
}

/// The options of one run.
pub open spec fn recipe(s: RunSpecView) -> Seq<OptionView> {
    isolation(s.network) + system_mounts() + read_mounts(s) + work_mount(s) + variables(s)
}

/// The interpreter as the sandbox sees it.
pub open spec fn interpreter(s: RunSpecView) -> Seq<char> {
    match s.env {
        Some(_) => ENV_MOUNT@ + "/bin/python"@,
        None => s.python,
    }
}

/// The command line of one run: the options, and the interpreter, which reads
/// the script from its input.
pub open spec fn command_line(s: RunSpecView) -> Seq<Seq<char>> {
    all_words(recipe(s)) + seq!["--"@, interpreter(s), "-"@]
}

/// The options of one run.
fn options_of(spec: &RunSpec) -> (r: Vec<SandboxOption>)
    ensures
        crate::fields::views_of(r@) == recipe(spec@),
{
    let ghost s = spec@;
    let mut out: Vec<SandboxOption> = vec![
        SandboxOption::UnshareAll,
        SandboxOption::NewSession,
        SandboxOption::DieWithParent,
        SandboxOption::ClearEnv,
    ];
    if spec.network {
        out.push(SandboxOption::ShareNet);
    }
    assert(crate::fields::views_of(out@) =~= isolation(s.network));
    let ghost before = out@;
    let mut system: Vec<SandboxOption> = vec![
        SandboxOption::ReadOnlyTry("/usr".to_owned()),
        SandboxOption::ReadOnlyTry("/bin".to_owned()),
        SandboxOption::ReadOnlyTry("/lib".to_owned()),
        SandboxOption::ReadOnlyTry("/lib64".to_owned()),
        SandboxOption::ReadOnlyTry("/sbin".to_owned()),
        SandboxOption::ReadOnlyTry("/etc".to_owned()),
        SandboxOption::Special { option: "--proc", place: "/proc" },
        SandboxOption::Special { option: "--dev", place: "/dev" },
        SandboxOption::Special { option: "--tmpfs", place: "/tmp" },
    ];
    assert(crate::fields::views_of(system@) =~= system_mounts());
    out.append(&mut system);
    let ghost head = isolation(s.network) + system_mounts();
    assert(crate::fields::views_of(out@) =~= head);
    let ghost reads = s.read_paths.map_values(|p: Seq<char>| OptionView::ReadOnlyTry(p));
    let mut i: usize = 0;
    while i < spec.read_paths.len()
        invariant
            i <= spec.read_paths@.len(),
            s == spec@,
            reads == s.read_paths.map_values(|p: Seq<char>| OptionView::ReadOnlyTry(p)),
            crate::fields::views_of(out@) == head + reads.take(i as int),
        decreases spec.read_paths.len() - i,
    {
        let ghost now = crate::fields::views_of(out@);
        out.push(SandboxOption::ReadOnlyTry(spec.read_paths[i].clone()));
        assert(crate::fields::views_of(out@) =~= now.push(reads[i as int]));
        assert(reads.take(i + 1) =~= reads.take(i as int).push(reads[i as int]));
        i = i + 1;
        assert(crate::fields::views_of(out@) =~= head + reads.take(i as int));
    }
    assert(reads.take(i as int) =~= reads);
    let ghost now = crate::fields::views_of(out@);
    let bin: String = match spec.env {
        Some(env) => {
            let mount = SandboxOption::ReadOnly { from: env.to_owned(), to: ENV_MOUNT };
            out.push(mount);
            assert(crate::fields::views_of(out@) =~= now.push(mount@));
            let mut bin = ENV_MOUNT.to_owned();
            bin.append("/bin");
            bin
        },
        None => match parent_dir(spec.python) {
            Some(p) => p,
            None => "/usr/bin".to_owned(),
        },
    };
    assert(crate::fields::views_of(out@) =~= head + read_mounts(s));
    let mut path = bin;
    path.append(":/usr/bin:/bin");
    let mut rest: Vec<SandboxOption> = vec![
        SandboxOption::Writable { from: spec.workspace.to_owned(), to: WORKSPACE_MOUNT },
        SandboxOption::RootReadOnly,
        SandboxOption::ChangeDir(WORKSPACE_MOUNT),
        SandboxOption::SetEnv { key: "PATH", value: path },
        SandboxOption::SetEnv { key: "HOME", value: "/tmp".to_owned() },
        SandboxOption::SetEnv { key: "LANG", value: "C.UTF-8".to_owned() },
        SandboxOption::SetEnv { key: "LC_ALL", value: "C.UTF-8".to_owned() },
        SandboxOption::SetEnv { key: "PYTHONDONTWRITEBYTECODE", value: "1".to_owned() },
        SandboxOption::SetEnv { key: "PYTHONUNBUFFERED", value: "1".to_owned() },
        SandboxOption::SetEnv { key: "MPLBACKEND", value: "Agg".to_owned() },
        SandboxOption::SetEnv { key: "KAERU_WORKSPACE", value: WORKSPACE_MOUNT.to_owned() },
    ];
    assert(crate::fields::views_of(rest@) =~= work_mount(s) + variables(s));
    let ghost last = rest@;
    let ghost most = out@;
    out.append(&mut rest);
    assert(crate::fields::views_of(out@) =~= crate::fields::views_of(most)
        + crate::fields::views_of(last));
    assert(crate::fields::views_of(out@) =~= recipe(s));
    out
}

/// A list of one word.
fn one(a: &str) -> (r: Vec<String>)
    ensures
        crate::text::texts(r@) == seq![a@],
{
    let r = vec![a.to_owned()];
    assert(crate::text::texts(r@) =~= seq![a@]);
    r
}

/// A list of two words.
fn two(a: &str, b: &str) -> (r: Vec<String>)
    ensures
        crate::text::texts(r@) == seq![a@, b@],
{
    let r = vec![a.to_owned(), b.to_owned()];
    assert(crate::text::texts(r@) =~= seq![a@, b@]);
    r
}

/// A list of three words.
fn three(a: &str, b: &str, c: &str) -> (r: Vec<String>)
    ensures
        crate::text::texts(r@) == seq![a@, b@, c@],
{
    let r = vec![a.to_owned(), b.to_owned(), c.to_owned()];
    assert(crate::text::texts(r@) =~= seq![a@, b@, c@]);
    r
}

impl SandboxOption {
    /// The words of the option on the command line.
    fn words(&self) -> (r: Vec<String>)
        ensures
            crate::text::texts(r@) == option_words(self@),
    {
        match self {
            SandboxOption::UnshareAll => one("--unshare-all"),
            SandboxOption::NewSession => one("--new-session"),
            SandboxOption::DieWithParent => one("--die-with-parent"),
            SandboxOption::ClearEnv => one("--clearenv"),
            SandboxOption::ShareNet => one("--share-net"),
            SandboxOption::ReadOnlyTry(p) => three("--ro-bind-try", p.as_str(), p.as_str()),
            SandboxOption::ReadOnly { from, to } => three("--ro-bind", from.as_str(), to),
            SandboxOption::Writable { from, to } => three("--bind", from.as_str(), to),
            SandboxOption::Special { option, place } => two(option, place),
            SandboxOption::RootReadOnly => two("--remount-ro", "/"),
            SandboxOption::ChangeDir(d) => two("--chdir", d),
            SandboxOption::SetEnv { key, value } => three("--setenv", key, value.as_str()),
        }
    }
}

/// The words of options, one after the other.
fn words_of(options: &Vec<SandboxOption>) -> (r: Vec<String>)
    ensures
        crate::text::texts(r@) == all_words(crate::fields::views_of(options@)),
{
    let ghost all = crate::fields::views_of(options@);
    let mut out: Vec<String> = Vec::new();
    let mut i: usize = 0;
    assert(all.take(0) =~= seq![]);
    assert(crate::text::texts(out@) =~= seq![]);
    while i < options.len()
        invariant
            i <= options.len(),
            all == crate::fields::views_of(options@),
            crate::text::texts(out@) == all_words(all.take(i as int)),
        decreases options.len() - i,
    {
        assert(all.take(i + 1).drop_last() =~= all.take(i as int));
        assert(all.take(i + 1).last() == options@[i as int]@);
        let ghost before = crate::text::texts(out@);
        let mut words = options[i].words();
        let ghost more = crate::text::texts(words@);
        out.append(&mut words);
        assert(crate::text::texts(out@) =~= before + more);
        i = i + 1;
    }
    assert(all.take(i as int) =~= all);
    out
}

/// The command line of one run.
pub fn bwrap_args(spec: &RunSpec) -> (r: Vec<String>)
    ensures
        crate::text::texts(r@) == command_line(spec@),
{
    let mut args = words_of(&options_of(spec));
    let ghost head = crate::text::texts(args@);
    let python: String = match spec.env {
        Some(_) => {
            let mut p = ENV_MOUNT.to_owned();
            p.append("/bin/python");
            p
        },
        None => spec.python.to_owned(),
    };
    let mut rest = three("--", python.as_str(), "-");
    let ghost tail = crate::text::texts(rest@);
    args.append(&mut rest);
    assert(crate::text::texts(args@) =~= head + tail);
    args
}

/// The network is shared only where the run asks for it, and then after
/// everything was shut off.
pub proof fn network_is_opt_in(s: RunSpecView)
    ensures
        recipe(s).contains(OptionView::ShareNet) <==> s.network,
        recipe(s)[0] == OptionView::UnshareAll,
        s.network ==> recipe(s)[4] == OptionView::ShareNet,
{
    if s.network {
        assert(recipe(s)[4] == OptionView::ShareNet);
    }
    assert forall|i: int| 0 <= i < recipe(s).len() && recipe(s)[i] == OptionView::ShareNet implies
        s.network by {
        lemma_pieces(s, i);
    }
}

/// Where an option comes from.
proof fn lemma_pieces(s: RunSpecView, i: int)
    requires
        0 <= i < recipe(s).len(),
    ensures
        recipe(s)[i] == OptionView::ShareNet ==> s.network,
        recipe(s)[i] is Writable ==> recipe(s)[i] == (OptionView::Writable {
            from: s.workspace,
            to: WORKSPACE_MOUNT@,
        }),
        recipe(s)[i] is ReadOnlyTry || recipe(s)[i] is ReadOnly || recipe(s)[i] is Writable
            || recipe(s)[i] is Special ==> i < root_place(s),
        recipe(s)[i] is RootReadOnly ==> i == root_place(s),
{
    let a = isolation(s.network);
    let b = a + system_mounts();
    let c = b + read_mounts(s);
    let d = c + work_mount(s);
    if i < a.len() {
        assert(recipe(s)[i] == a[i]);
    } else if i < b.len() {
        assert(recipe(s)[i] == system_mounts()[i - a.len()]);
    } else if i < c.len() {
        assert(recipe(s)[i] == read_mounts(s)[i - b.len()]);
    } else if i < d.len() {
        assert(recipe(s)[i] == work_mount(s)[i - c.len()]);
    } else {
        assert(recipe(s)[i] == variables(s)[i - d.len()]);
    }
}

/// The place of the option that makes the root read-only.
pub open spec fn root_place(s: RunSpecView) -> int {
    1int + isolation(s.network).len() + system_mounts().len() + read_mounts(s).len()
}

/// The workspace is the only directory of the host that can be written: every
/// other mount is read-only or of a kind of its own, and the root becomes
/// read-only after the last of them.
pub proof fn only_the_workspace_is_writable(s: RunSpecView)
    ensures
        forall|i: int|
            0 <= i < recipe(s).len() && (#[trigger] recipe(s)[i]) is Writable ==> recipe(s)[i] == (
            OptionView::Writable { from: s.workspace, to: WORKSPACE_MOUNT@ }),
        recipe(s)[root_place(s)] is RootReadOnly,
        forall|i: int|
            0 <= i < recipe(s).len() && ((#[trigger] recipe(s)[i]) is ReadOnlyTry
                || recipe(s)[i] is ReadOnly || recipe(s)[i] is Writable || recipe(s)[i] is Special)
                ==> i < root_place(s),
{
    assert forall|i: int| 0 <= i < recipe(s).len() && (#[trigger] recipe(s)[i]) is Writable implies
        recipe(s)[i] == (OptionView::Writable { from: s.workspace, to: WORKSPACE_MOUNT@ }) by {
        lemma_pieces(s, i);
    }
    assert forall|i: int|
        0 <= i < recipe(s).len() && ((#[trigger] recipe(s)[i]) is ReadOnlyTry || recipe(
            s,
        )[i] is ReadOnly || recipe(s)[i] is Writable || recipe(s)[i] is Special) implies i
        < root_place(s) by {
        lemma_pieces(s, i);
    }
    let c = isolation(s.network) + system_mounts() + read_mounts(s);
    assert(recipe(s)[root_place(s)] == work_mount(s)[1]);
}

/// What a stream gave, at most the bound.
#[derive(Debug)]
pub struct CappedOutput {
    collected: Vec<u8>,
    truncated: bool,
}

/// The content of a [`CappedOutput`].
#[verifier::ext_equal]
pub struct CappedView {
    pub bytes: Seq<u8>,
    /// Whether something was left out.
    pub truncated: bool,
}

impl View for CappedOutput {
    type V = CappedView;

    closed spec fn view(&self) -> CappedView {
        CappedView { bytes: self.collected@, truncated: self.truncated }
    }
}

/// The first bytes of a stream, and whether there were more.
pub open spec fn kept_of(all: Seq<u8>, cap: int) -> CappedView {
    if all.len() <= cap {
        CappedView { bytes: all, truncated: false }
    } else {
        CappedView { bytes: all.take(cap), truncated: true }
    }
}

/// A capture after one more chunk.
pub open spec fn captured(c: CappedView, chunk: Seq<u8>, cap: int) -> CappedView {
    let room = if c.bytes.len() < cap {
        cap - c.bytes.len()
    } else {
        0
    };
    if chunk.len() <= room {
        CappedView { bytes: c.bytes + chunk, truncated: c.truncated }
    } else {
        CappedView { bytes: c.bytes + chunk.take(room), truncated: true }
    }
}

/// A capture after several chunks.
pub open spec fn captured_all(chunks: Seq<Seq<u8>>, cap: int) -> CappedView
    decreases chunks.len(),
{
    if chunks.len() == 0 {
        CappedView { bytes: Seq::empty(), truncated: false }
    } else {
        captured(captured_all(chunks.drop_last(), cap), chunks.last(), cap)
    }
}

/// However a stream arrives, its first bytes are kept, and it is told whether
/// there were more.
pub proof fn capture_keeps_the_first_bytes(chunks: Seq<Seq<u8>>, cap: int)
    requires
        cap >= 0,
    ensures
        captured_all(chunks, cap) == kept_of(crate::search::page::all_bytes(chunks), cap),
        captured_all(chunks, cap).bytes.len() <= cap,
    decreases chunks.len(),
{
    if chunks.len() > 0 {
        capture_keeps_the_first_bytes(chunks.drop_last(), cap);
        let before = crate::search::page::all_bytes(chunks.drop_last());
        let all = before + chunks.last();
        assert(captured_all(chunks, cap).bytes =~= kept_of(all, cap).bytes);
    }
}

impl CappedOutput {
    /// Nothing was read yet.
    pub fn new() -> (r: CappedOutput)
        ensures
            r@ == (CappedView { bytes: Seq::empty(), truncated: false }),
    {
        CappedOutput { collected: Vec::new(), truncated: false }
    }

    /// Adds a chunk; what exceeds the bound is dropped.
    pub fn push(&mut self, chunk: &Vec<u8>, cap: usize)
        ensures
            final(self)@ == captured(old(self)@, chunk@, cap as int),
    {
        let ghost start = self.collected@;
        let room: usize = if self.collected.len() < cap {
            cap - self.collected.len()
        } else {
            0
        };
        let n: usize = if chunk.len() <= room {
            chunk.len()
        } else {
            self.truncated = true;
            room
        };
        let mut i: usize = 0;
        while i < n
            invariant
                i <= n <= chunk@.len(),
                self.collected@ == start + chunk@.take(i as int),
                self.truncated == (old(self)@.truncated || n < chunk@.len()),
            decreases n - i,
        {
            assert(chunk@.take(i + 1) =~= chunk@.take(i as int).push(chunk@[i as int]));
            self.collected.push(chunk[i]);
            i = i + 1;
            assert(self.collected@ =~= start + chunk@.take(i as int));
        }
        assert(n == chunk@.len() ==> chunk@.take(n as int) =~= chunk@);
    }
}

/// The result of one run.
#[derive(Debug, PartialEq, Eq)]
pub struct ScriptOutcome {
    pub stdout: String,
    pub stderr: String,
    pub exit_code: Option<i32>,
    /// The signal that killed the script.
    pub signal: Option<i32>,
    /// Whether a stream exceeded its bound.
    pub truncated: bool,
    /// Whether the script took too long and was killed.
    pub timed_out: bool,
    pub duration_ms: u64,
}

impl ScriptOutcome {
    /// Whether the script ran to its end without an error.
    pub fn success(&self) -> (r: bool)
        ensures
            r == (!self.timed_out && self.exit_code == Some(0i32)),
    {
        let zero: bool = match self.exit_code {
            Some(code) => code == 0,
            None => false,
        };
        !self.timed_out && zero
    }

    /// The result of a run whose process is gone.
    pub fn of_run(
        stdout: &CappedOutput,
        stderr: &CappedOutput,
        exit_code: Option<i32>,
        signal: Option<i32>,
        timed_out: bool,
        duration_ms: u64,
    ) -> (r: ScriptOutcome)
        ensures
            r.stdout@ == crate::llm::sse::lossy(stdout@.bytes),
            r.stderr@ == crate::llm::sse::lossy(stderr@.bytes),
            r.exit_code == exit_code,
            r.signal == signal,
            r.truncated == (stdout@.truncated || stderr@.truncated),
            r.timed_out == timed_out,
            r.duration_ms == duration_ms,
    {
        ScriptOutcome {
            stdout: decode_lossy(&stdout.collected),
            stderr: decode_lossy(&stderr.collected),
            exit_code,
            signal,
            truncated: stdout.truncated || stderr.truncated,
            timed_out,
            duration_ms,
        }
    }
}

/// Why a run did not take place.
#[derive(Debug)]
pub enum RunFault {
    /// The sandbox could not be started.
    Start(String),
    /// The script could not be handed over.
    Script(String),
    /// The process could not be waited for.
    Wait(String),
}

/// The error of a run that did not take place.
pub fn run_error(fault: RunFault) -> (r: ApiError)
    ensures
        r@ == match fault {
            RunFault::Start(cause) => crate::error::failure(
                ApiErrorKind::Config,
                "cannot start bubblewrap: "@ + cause@
                    + ". Install bubblewrap and enable unprivileged user namespaces (see docs/arc42-architecture.md, M5)."@,
            ),
            RunFault::Script(cause) => crate::error::failure(
                ApiErrorKind::Internal,
                "cannot deliver the script to python: "@ + cause@,
            ),
            RunFault::Wait(cause) => crate::error::failure(
                ApiErrorKind::Internal,
                "cannot wait for the sandboxed process: "@ + cause@,
            ),
        },
{
    match fault {
        RunFault::Start(cause) => {
            let mut message = "cannot start bubblewrap: ".to_owned();
            message.append(cause.as_str());
            message.append(
                ". Install bubblewrap and enable unprivileged user namespaces (see docs/arc42-architecture.md, M5).",
            );
            ApiError::config(message.as_str())
        },
        RunFault::Script(cause) => {
            let mut message = "cannot deliver the script to python: ".to_owned();
            message.append(cause.as_str());
            ApiError::internal(message.as_str())
        },
        RunFault::Wait(cause) => {
            let mut message = "cannot wait for the sandboxed process: ".to_owned();
            message.append(cause.as_str());
            ApiError::internal(message.as_str())
        },
    }
}

} // verus!
