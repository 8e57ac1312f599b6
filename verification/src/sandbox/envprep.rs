//! Preparing an environment for a set of dependencies: the only phase that
//! touches the network, and it runs only with consent. An environment is named
//! by a stable hash of its set, so a prepared one is found again.

use vstd::prelude::*;

use crate::error::{ApiError, ApiErrorKind, ApiErrorView};
use crate::llm::sse::decode_lossy;
use crate::order::Ranked;
use crate::paths::join_path;
use crate::text::{
    chars_of, decimal_of, empty, hex_of, less, list_has, string_of, trimmed,
};

verus! {

/// How long the preparation of an environment may take, in seconds.
pub const ENV_PREP_TIMEOUT_SECS: u64 = 300;

/// The file that marks a complete environment.
pub const COMPLETE_MARKER: &'static str = ".complete";

/// How much of an installer's message is kept, in characters.
pub const STDERR_TAIL_CHARS: usize = 800;

/// The name of a prepared environment.
#[derive(Debug, PartialEq, Eq)]
pub struct EnvId(String);

impl View for EnvId {
    type V = Seq<char>;

    closed spec fn view(&self) -> Seq<char> {
        self.0@
    }
}

impl Clone for EnvId {
    fn clone(&self) -> (r: Self)
        ensures
            r@ == self@,
    {
        EnvId(self.0.clone())
    }
}

impl EnvId {
    /// The name.
    pub fn as_str(&self) -> (r: &str)
        ensures
            r@ == self@,
    {
        self.0.as_str()
    }
}

/// A set of dependencies without white space around them, without empty ones
/// and without repetitions, in the order of the request.
pub open spec fn normalized(raw: Seq<Seq<char>>) -> Seq<Seq<char>>
    decreases raw.len(),
{
    if raw.len() == 0 {
        seq![]
    } else {
        let before = normalized(raw.drop_last());
        let dep = crate::text::trim(raw.last());
        if dep.len() == 0 || before.contains(dep) {
            before
        } else {
            before.push(dep)
        }
    }
}

/// A set of dependencies in its normal form.
pub fn normalize_deps(raw: &Vec<String>) -> (r: Vec<String>)
    ensures
        crate::text::texts(r@) == normalized(crate::text::texts(raw@)),
{
    let ghost all = crate::text::texts(raw@);
    let mut deps: Vec<String> = Vec::new();
    let mut i: usize = 0;
    assert(all.take(0) =~= seq![]);
    assert(crate::text::texts(deps@) =~= seq![]);
    while i < raw.len()
        invariant
            i <= raw.len(),
            all == crate::text::texts(raw@),
            crate::text::texts(deps@) == normalized(all.take(i as int)),
        decreases raw.len() - i,
    {
        assert(all.take(i + 1).drop_last() =~= all.take(i as int));
        assert(all.take(i + 1).last() == raw@[i as int]@);
        let ghost before = crate::text::texts(deps@);
        let dep = trimmed(raw[i].as_str());
        if !empty(dep.as_str()) && !list_has(&deps, dep.as_str()) {
            deps.push(dep);
            assert(crate::text::texts(deps@) =~= before.push(dep@));
        }
        i = i + 1;
    }
    assert(all.take(i as int) =~= all);
    deps
}

impl Ranked for String {
    open spec fn before(a: Seq<char>, b: Seq<char>) -> bool {
        crate::text::lex_lt(a, b)
    }

    fn comes_before(&self, other: &Self) -> (r: bool) {
        less(self.as_str(), other.as_str())
    }

    proof fn asymmetric(a: Seq<char>, b: Seq<char>) {
        if crate::text::lex_lt(b, a) {
            crate::text::lemma_lex_transitive(a, b, a);
            crate::text::lemma_lex_irreflexive(a);
        }
    }

    proof fn transitive(a: Seq<char>, b: Seq<char>, c: Seq<char>) {
        crate::text::lemma_lex_total(a, b);
        crate::text::lemma_lex_total(b, c);
        if crate::text::lex_lt(c, a) {
            if crate::text::lex_lt(a, b) {
                crate::text::lemma_lex_transitive(c, a, b);
            }
        }
    }
}

/// One step of the hash (FNV-1a, 64 bits).
pub open spec fn hash_step(hash: u64, byte: u8) -> u64 {
    (hash ^ (byte as u64)).wrapping_mul(0x100000001b3)
}

/// The hash after bytes.
pub open spec fn hash_bytes(hash: u64, bytes: Seq<u8>) -> u64
    decreases bytes.len(),
{
    if bytes.len() == 0 {
        hash
    } else {
        hash_step(hash_bytes(hash, bytes.drop_last()), bytes.last())
    }
}

/// The hash of texts, each followed by a zero byte.
pub open spec fn hash_texts(texts: Seq<Seq<char>>) -> u64
    decreases texts.len(),
{
    if texts.len() == 0 {
        0xcbf29ce484222325
    } else {
        hash_step(
            hash_bytes(
                hash_texts(texts.drop_last()),
                vstd::utf8::encode_utf8(texts.last()),
            ),
            0,
        )
    }
}

/// The hash of a set of dependencies: of its sorted texts, as sixteen digits.
pub open spec fn hash_of(deps: Seq<Seq<char>>) -> Seq<char> {
    crate::text::zero_padded(
        crate::text::hex(hash_texts(crate::order::ranked::<String>(deps)) as nat),
        16,
    )
}

/// The hash after a text and a zero byte.
fn hash_text(hash: u64, text: &str) -> (r: u64)
    ensures
        r == hash_step(hash_bytes(hash, vstd::utf8::encode_utf8(text@)), 0),
{
    let bytes = text.as_bytes();
    let ghost all = bytes@;
    let mut h: u64 = hash;
    let mut i: usize = 0;
    assert(all.take(0) =~= seq![]);
    while i < bytes.len()
        invariant
            i <= bytes@.len(),
            all == bytes@,
            h == hash_bytes(hash, all.take(i as int)),
        decreases bytes@.len() - i,
    {
        assert(all.take(i + 1).drop_last() =~= all.take(i as int));
        h = (h ^ (bytes[i] as u64)).wrapping_mul(0x100000001b3);
        i = i + 1;
    }
    assert(all.take(i as int) =~= all);
    (h ^ (0u8 as u64)).wrapping_mul(0x100000001b3)
}

/// The hash of a set of dependencies: the same set always has the same one, in
/// whatever order it stands.
pub fn deps_hash(deps: &Vec<String>) -> (r: String)
    ensures
        r@ == hash_of(crate::text::texts(deps@)),
        r@.len() == 16,
{
    let copy = crate::text::copy_strings(deps);
    assert(crate::fields::views_of(copy@) =~= crate::text::texts(deps@));
    let sorted = crate::order::sort(copy);
    let ghost all = crate::fields::views_of(sorted@);
    let mut hash: u64 = 0xcbf29ce484222325;
    let mut i: usize = 0;
    assert(all.take(0) =~= seq![]);
    while i < sorted.len()
        invariant
            i <= sorted.len(),
            all == crate::fields::views_of(sorted@),
            hash == hash_texts(all.take(i as int)),
        decreases sorted.len() - i,
    {
        assert(all.take(i + 1).drop_last() =~= all.take(i as int));
        assert(all.take(i + 1).last() == sorted@[i as int]@);
        hash = hash_text(hash, sorted[i].as_str());
        i = i + 1;
    }
    assert(all.take(i as int) =~= all);
    let digits = hex_of(hash as u128);
    let mut out = String::new();
    let mut n: usize = crate::text::char_count(digits.as_str());
    let ghost k = n;
    while n < 16
        invariant
            out@ == crate::text::copies('0', n - k),
            k <= n,
            k <= 16 ==> n <= 16,
            k > 16 ==> n == k,
        decreases 16 - n,
    {
        let ghost before = out@;
        out.push('0');
        n = n + 1;
        assert(out@ =~= crate::text::copies('0', n - k));
    }
    assert(out@ =~= crate::text::copies('0', 16 - k));
    proof {
        crate::text::lemma_hex_len_64(hash as nat);
    }
    out.append(digits.as_str());
    out
}

/// The name of the environment of a set of dependencies.
pub fn env_id(deps: &Vec<String>) -> (r: EnvId)
    ensures
        r@ == hash_of(normalized(crate::text::texts(deps@))),
{
    EnvId(deps_hash(&normalize_deps(deps)))
}

/// The files that a prepared environment holds: the marker and the interpreter.
pub open spec fn env_files(envs: Seq<char>, deps: Seq<Seq<char>>) -> (Seq<char>, Seq<char>) {
    let dir = crate::paths::joined(envs, hash_of(normalized(deps)));
    (
        crate::paths::joined(dir, COMPLETE_MARKER@),
        crate::paths::joined(dir, "bin/python"@),
    )
}

/// The files that a prepared environment holds: the marker and the interpreter.
pub fn marker_paths(envs: &str, deps: &Vec<String>) -> (r: (String, String))
    ensures
        (r.0@, r.1@) == env_files(envs@, crate::text::texts(deps@)),
{
    let id = env_id(deps);
    let dir = join_path(envs, id.as_str());
    (join_path(dir.as_str(), COMPLETE_MARKER), join_path(dir.as_str(), "bin/python"))
}

/// Whether an environment is prepared: its installation was completed and its
/// interpreter is there.
pub fn prepared(marker_is_file: bool, python_exists: bool) -> (r: bool)
    ensures
        r == (marker_is_file && python_exists),
{
    marker_is_file && python_exists
}

/// What is to be done for an environment.
#[derive(Debug)]
pub enum PrepPlan {
    /// It is there.
    Reuse(EnvId),
    /// It is to be installed.
    Install(Install),
}

/// The installation of an environment.
#[derive(Debug)]
pub struct Install {
    pub id: EnvId,
    /// Where it is built.
    pub tmp: String,
    /// Where it goes once it is complete.
    pub target: String,
    pub cache: String,
    /// The arguments that create it.
    pub venv_args: Vec<String>,
    /// The arguments that install the dependencies.
    pub install_args: Vec<String>,
    /// The marker that is written last.
    pub marker: String,
}

/// The content of an [`Install`].
#[verifier::ext_equal]
pub struct InstallView {
    pub id: Seq<char>,
    pub tmp: Seq<char>,
    pub target: Seq<char>,
    pub cache: Seq<char>,
    pub venv_args: Seq<Seq<char>>,
    pub install_args: Seq<Seq<char>>,
    pub marker: Seq<char>,
}

impl View for Install {
    type V = InstallView;

    open spec fn view(&self) -> InstallView {
        InstallView {
            id: self.id@,
            tmp: self.tmp@,
            target: self.target@,
            cache: self.cache@,
            venv_args: crate::text::texts(self.venv_args@),
            install_args: crate::text::texts(self.install_args@),
            marker: self.marker@,
        }
    }
}

/// The installation of the environment of a set in its normal form.
pub open spec fn install_of(
    envs: Seq<char>,
    python: Seq<char>,
    deps: Seq<Seq<char>>,
    pid: u32,
) -> InstallView {
    let id = hash_of(normalized(deps));
    let tmp = crate::paths::joined(
        envs,
        "."@ + id + ".tmp-"@ + crate::text::decimal(pid as nat),
    );
    InstallView {
        id: id,
        tmp: tmp,
        target: crate::paths::joined(envs, id),
        cache: crate::paths::joined(envs, ".cache"@),
        venv_args: seq!["venv"@, "--python"@, python, tmp],
        install_args: seq![
            "pip"@,
            "install"@,
            "--python"@,
            crate::paths::joined(tmp, "bin/python"@),
            "--"@,
        ] + deps,
        marker: crate::paths::joined(tmp, COMPLETE_MARKER@),
    }
}

/// What is to be done for the environment of a set of dependencies. One that is
/// there is used as it is: no work, no network.
pub fn plan(
    envs: &str,
    python: &str,
    deps: &Vec<String>,
    is_prepared: bool,
    pid: u32,
) -> (r: Result<PrepPlan, ApiError>)
    ensures
        ({
            let set = normalized(crate::text::texts(deps@));
            &&& set.len() == 0 ==> (r matches Err(e) && e@ == crate::error::failure(
                ApiErrorKind::Config,
                "no dependencies to prepare"@,
            ))
            &&& set.len() > 0 && is_prepared ==> (r matches Ok(PrepPlan::Reuse(id)) && id@
                == hash_of(normalized(set)))
            &&& set.len() > 0 && !is_prepared ==> (r matches Ok(PrepPlan::Install(i)) && i@
                == install_of(envs@, python@, set, pid))
        }),
{
    let set = normalize_deps(deps);
    let ghost views = crate::text::texts(set@);
    assert(views.len() == set@.len());
    if set.len() == 0 {
        return Err(ApiError::config("no dependencies to prepare"));
    }
    let id = env_id(&set);
    if is_prepared {
        return Ok(PrepPlan::Reuse(id));
    }
    let mut name = ".".to_owned();
    name.append(id.as_str());
    name.append(".tmp-");
    name.append(decimal_of(pid as u64).as_str());
    let tmp = join_path(envs, name.as_str());
    let target = join_path(envs, id.as_str());
    let cache = join_path(envs, ".cache");
    let venv_args = vec!["venv".to_owned(), "--python".to_owned(), python.to_owned(), tmp.clone()];
    assert(crate::text::texts(venv_args@) =~= seq!["venv"@, "--python"@, python@, tmp@]);
    let mut install_args = vec![
        "pip".to_owned(),
        "install".to_owned(),
        "--python".to_owned(),
        join_path(tmp.as_str(), "bin/python"),
        "--".to_owned(),
    ];
    let ghost head = crate::text::texts(install_args@);
    assert(head =~= seq![
        "pip"@,
        "install"@,
        "--python"@,
        crate::paths::joined(tmp@, "bin/python"@),
        "--"@,
    ]);
    let mut more = set;
    install_args.append(&mut more);
    assert(crate::text::texts(install_args@) =~= head + views);
    let marker = join_path(tmp.as_str(), COMPLETE_MARKER);
    let i = Install { id, tmp, target, cache, venv_args, install_args, marker };
    Ok(PrepPlan::Install(i))
}

/// What an installation gives, given how the move to its place went. Another
/// attempt may have been first.
pub fn finalize(install: Install, moved: Result<(), String>, prepared_now: bool) -> (r: Result<
    EnvId,
    ApiError,
>)
    ensures
        r is Ok <==> moved is Ok || prepared_now,
        r matches Ok(id) ==> id@ == install@.id,
        r matches Err(e) ==> (moved matches Err(cause) && e@ == crate::error::failure(
            ApiErrorKind::Internal,
            "cannot finalize env "@ + install@.target + ": "@ + cause@,
        )),
{
    match moved {
        Ok(()) => Ok(install.id),
        Err(cause) => {
            if prepared_now {
                return Ok(install.id);
            }
            let mut message = "cannot finalize env ".to_owned();
            message.append(install.target.as_str());
            message.append(": ");
            message.append(cause.as_str());
            Err(ApiError::internal(message.as_str()))
        },
    }
}

/// How a run of the installer ended.
#[derive(Debug)]
pub enum UvEnd {
    /// It could not be started.
    NotStarted(String),
    /// It succeeded.
    Success,
    /// It failed, with its status and what it wrote.
    Failed { status: String, stderr: Vec<u8> },
    /// It could not be waited for.
    Lost(String),
    /// It took too long.
    TimedOut,
}

/// The last characters of a text without white space around it.
pub open spec fn tail_of(text: Seq<char>, max: int) -> Seq<char> {
    let t = crate::text::trim(text);
    if t.len() <= max {
        t
    } else {
        t.skip(t.len() - max)
    }
}

/// The last characters of a text without white space around it.
pub fn tail(text: &str, max: usize) -> (r: String)
    ensures
        r@ == tail_of(text@, max as int),
{
    let t = trimmed(text);
    let v = chars_of(t.as_str());
    if v.len() <= max {
        return t;
    }
    let r = string_of(&v, v.len() - max, v.len());
    assert(r@ =~= tail_of(text@, max as int));
    r
}

/// The error of a run of the installer; none where it succeeded.
pub open spec fn uv_error(what: Seq<char>, end: UvEnd) -> Option<ApiErrorView> {
    match end {
        UvEnd::Success => None,
        UvEnd::NotStarted(cause) => Some(
            crate::error::failure(
                ApiErrorKind::Config,
                "cannot run `uv` ("@ + cause@
                    + "). Install uv and make sure it is on PATH (see docs/arc42-architecture.md, M5)."@,
            ),
        ),
        UvEnd::Failed { status, stderr } => Some(
            crate::error::failure(
                ApiErrorKind::Config,
                what + " failed ("@ + status@ + "): "@ + tail_of(
                    crate::llm::sse::lossy(stderr@),
                    STDERR_TAIL_CHARS as int,
                ),
            ),
        ),
        UvEnd::Lost(cause) => Some(
            crate::error::failure(ApiErrorKind::Internal, what + " failed: "@ + cause@),
        ),
        UvEnd::TimedOut => Some(
            crate::error::failure(
                ApiErrorKind::Config,
                what + " timed out after "@ + crate::text::decimal(ENV_PREP_TIMEOUT_SECS as nat)
                    + "s; try again or request fewer packages"@,
            ),
        ),
    }
}

/// What a run of the installer gives.
pub fn uv_result(what: &str, end: UvEnd) -> (r: Result<(), ApiError>)
    ensures
        crate::error::error_of(r) == uv_error(what@, end),
{
    match end {
        UvEnd::Success => Ok(()),
        UvEnd::NotStarted(cause) => {
            let mut message = "cannot run `uv` (".to_owned();
            message.append(cause.as_str());
            message.append(
                "). Install uv and make sure it is on PATH (see docs/arc42-architecture.md, M5).",
            );
            Err(ApiError::config(message.as_str()))
        },
        UvEnd::Failed { status, stderr } => {
            let mut message = what.to_owned();
            message.append(" failed (");
            message.append(status.as_str());
            message.append("): ");
            message.append(tail(decode_lossy(&stderr).as_str(), STDERR_TAIL_CHARS).as_str());
            Err(ApiError::config(message.as_str()))
        },
        UvEnd::Lost(cause) => {
            let mut message = what.to_owned();
            message.append(" failed: ");
            message.append(cause.as_str());
            Err(ApiError::internal(message.as_str()))
        },
        UvEnd::TimedOut => {
            let mut message = what.to_owned();
            message.append(" timed out after ");
            message.append(decimal_of(ENV_PREP_TIMEOUT_SECS).as_str());
            message.append("s; try again or request fewer packages");
            Err(ApiError::config(message.as_str()))
        },
    }
}

/// Whether no text stands twice in a list.
pub open spec fn distinct(s: Seq<Seq<char>>) -> bool {
    forall|i: int, j: int| 0 <= i < j < s.len() ==> s[i] != s[j]
}

pub(crate) proof fn lemma_normalized(raw: Seq<Seq<char>>)
    ensures
        distinct(normalized(raw)),
        forall|i: int|
            0 <= i < normalized(raw).len() ==> (#[trigger] normalized(raw)[i]).len() > 0
                && crate::text::trim(normalized(raw)[i]) == normalized(raw)[i],
        forall|x: Seq<char>| #[trigger]
            normalized(raw).contains(x) <==> x.len() > 0 && exists|i: int|
                0 <= i < raw.len() && crate::text::trim(#[trigger] raw[i]) == x,
    decreases raw.len(),
{
    let n = normalized(raw);
    if raw.len() > 0 {
        let before = normalized(raw.drop_last());
        let dep = crate::text::trim(raw.last());
        lemma_normalized(raw.drop_last());
        crate::memory::laws::lemma_trim_ends(raw.last());
        crate::text::lemma_trim_solid(dep);
        assert forall|x: Seq<char>| #[trigger] n.contains(x) <==> x.len() > 0 && exists|i: int|
            0 <= i < raw.len() && crate::text::trim(#[trigger] raw[i]) == x by {
            if n.contains(x) {
                let k = choose|k: int| 0 <= k < n.len() && n[k] == x;
                if k < before.len() {
                    assert(before[k] == x);
                    assert(before.contains(x));
                    let i = choose|i: int|
                        0 <= i < raw.drop_last().len() && crate::text::trim(
                            #[trigger] raw.drop_last()[i],
                        ) == x;
                    assert(crate::text::trim(raw[i]) == x);
                } else {
                    assert(crate::text::trim(raw[raw.len() - 1]) == x);
                }
            }
            if x.len() > 0 && exists|i: int|
                0 <= i < raw.len() && crate::text::trim(#[trigger] raw[i]) == x {
                let i = choose|i: int|
                    0 <= i < raw.len() && crate::text::trim(#[trigger] raw[i]) == x;
                if i < raw.len() - 1 {
                    assert(crate::text::trim(raw.drop_last()[i]) == x);
                    assert(before.contains(x));
                    let k = choose|k: int| 0 <= k < before.len() && before[k] == x;
                    assert(n[k] == x);
                } else if !before.contains(dep) {
                    assert(n[before.len() as int] == x);
                } else {
                    assert(n == before);
                }
            }
        }
        if dep.len() > 0 && !before.contains(dep) {
            assert forall|i: int, j: int| 0 <= i < j < n.len() implies n[i] != n[j] by {
                if j == before.len() {
                    assert(before[i] == n[i]);
                }
            }
        }
    }
}

/// The normal form is one: normalizing it changes nothing.
pub proof fn normalizing_twice_is_normalizing_once(raw: Seq<Seq<char>>)
    ensures
        normalized(normalized(raw)) == normalized(raw),
{
    lemma_normalized(raw);
    lemma_normal_stays(normalized(raw));
}

proof fn lemma_normal_stays(s: Seq<Seq<char>>)
    requires
        distinct(s),
        forall|i: int|
            0 <= i < s.len() ==> (#[trigger] s[i]).len() > 0 && crate::text::trim(s[i]) == s[i],
    ensures
        normalized(s) == s,
    decreases s.len(),
{
    if s.len() > 0 {
        let t = s.drop_last();
        assert forall|i: int| 0 <= i < t.len() implies (#[trigger] t[i]).len() > 0
            && crate::text::trim(t[i]) == t[i] by {
            assert(t[i] == s[i]);
        }
        lemma_normal_stays(t);
        assert(s[s.len() - 1] == s.last());
        assert(!t.contains(s.last())) by {
            if t.contains(s.last()) {
                let k = choose|k: int| 0 <= k < t.len() && t[k] == s.last();
                assert(s[k] == s[s.len() - 1]);
            }
        }
        assert(t.push(s.last()) =~= s);
    } else {
        assert(s =~= seq![]);
    }
}

/// Two sorted lists without repetitions that hold the same texts are equal.
proof fn lemma_sorted_unique(a: Seq<Seq<char>>, b: Seq<Seq<char>>)
    requires
        crate::order::in_rank::<String>(a),
        crate::order::in_rank::<String>(b),
        distinct(a),
        distinct(b),
        forall|x: Seq<char>| #[trigger] a.contains(x) <==> b.contains(x),
    ensures
        a == b,
    decreases a.len(),
{
    if a.len() == 0 {
        if b.len() > 0 {
            assert(b.contains(b[0]));
            assert(a.contains(b[0]));
        }
        assert(a =~= b);
    } else {
        assert(a.contains(a.last()));
        assert(b.contains(a.last()));
        let j = choose|j: int| 0 <= j < b.len() && b[j] == a.last();
        assert(b.contains(b.last())) by {
            assert(b[b.len() - 1] == b.last());
        }
        assert(a.contains(b.last()));
        let i = choose|i: int| 0 <= i < a.len() && a[i] == b.last();
        if j < b.len() - 1 {
            assert(!crate::text::lex_lt(b[b.len() - 1], b[j]));
            if i < a.len() - 1 {
                assert(!crate::text::lex_lt(a[a.len() - 1], a[i]));
                crate::text::lemma_lex_total(a.last(), b.last());
            }
            assert(a.last() == b.last());
            assert(b[j] == b[b.len() - 1]);
        }
        let x = a.drop_last();
        let y = b.drop_last();
        assert(a.last() == b.last());
        assert forall|t: Seq<char>| #[trigger] x.contains(t) <==> y.contains(t) by {
            if x.contains(t) {
                let k = choose|k: int| 0 <= k < x.len() && x[k] == t;
                assert(a[k] == t);
                assert(a.contains(t));
                assert(b.contains(t));
                let m = choose|m: int| 0 <= m < b.len() && b[m] == t;
                assert(a[k] != a[a.len() - 1]);
                assert(y[m] == t);
            }
            if y.contains(t) {
                let k = choose|k: int| 0 <= k < y.len() && y[k] == t;
                assert(b[k] == t);
                assert(b.contains(t));
                assert(a.contains(t));
                let m = choose|m: int| 0 <= m < a.len() && a[m] == t;
                assert(b[k] != b[b.len() - 1]);
                assert(x[m] == t);
            }
        }
        assert(crate::order::in_rank::<String>(x)) by {
            assert forall|p: int, q: int| 0 <= p < q < x.len() implies !<String as Ranked>::before(
                #[trigger] x[q],
                #[trigger] x[p],
            ) by {
                assert(!<String as Ranked>::before(a[q], a[p]));
            }
        }
        assert(crate::order::in_rank::<String>(y)) by {
            assert forall|p: int, q: int| 0 <= p < q < y.len() implies !<String as Ranked>::before(
                #[trigger] y[q],
                #[trigger] y[p],
            ) by {
                assert(!<String as Ranked>::before(b[q], b[p]));
            }
        }
        lemma_sorted_unique(x, y);
        assert(a =~= x.push(a.last()));
        assert(b =~= y.push(b.last()));
    }
}

/// The sorted form of a list without repetitions holds the same texts, each
/// once.
proof fn lemma_ranked_set(s: Seq<Seq<char>>)
    requires
        distinct(s),
    ensures
        distinct(crate::order::ranked::<String>(s)),
        forall|x: Seq<char>| #[trigger]
            crate::order::ranked::<String>(s).contains(x) <==> s.contains(x),
{
    broadcast use vstd::seq_lib::group_to_multiset_ensures;

    let r = crate::order::ranked::<String>(s);
    crate::order::ranked_is_sorted::<String>(s);
    assert(s.no_duplicates());
    s.lemma_multiset_has_no_duplicates();
    assert forall|i: int, j: int| 0 <= i < j < r.len() implies r[i] != r[j] by {
        if r[i] == r[j] {
            r.to_multiset_ensures();
            lemma_twice(r, i, j);
            assert(s.to_multiset().count(r[i]) >= 2);
            assert(s.contains(r[i]));
        }
    }
    assert forall|x: Seq<char>| #[trigger] r.contains(x) <==> s.contains(x) by {
        assert(r.contains(x) <==> r.to_multiset().count(x) > 0);
        assert(s.contains(x) <==> s.to_multiset().count(x) > 0);
    }
}

/// What stands at two places is counted twice.
proof fn lemma_twice(s: Seq<Seq<char>>, i: int, j: int)
    requires
        0 <= i < j < s.len(),
        s[i] == s[j],
    ensures
        s.to_multiset().count(s[i]) >= 2,
{
    broadcast use vstd::seq_lib::group_to_multiset_ensures;

    let t = s.remove(j);
    assert(t[i] == s[i]);
    assert(t.to_multiset() =~= s.to_multiset().remove(s[j]));
    assert(t.contains(s[i]));
    assert(t.to_multiset().count(s[i]) > 0);
}

/// The order of a request does not split environments: two requests for the
/// same dependencies name the same environment.
pub proof fn order_does_not_matter(a: Seq<Seq<char>>, b: Seq<Seq<char>>)
    requires
        forall|x: Seq<char>| #[trigger] normalized(a).contains(x) <==> normalized(b).contains(x),
    ensures
        hash_of(normalized(a)) == hash_of(normalized(b)),
{
    lemma_normalized(a);
    lemma_normalized(b);
    let p = normalized(a);
    let q = normalized(b);
    lemma_ranked_set(p);
    lemma_ranked_set(q);
    crate::order::ranked_is_sorted::<String>(p);
    crate::order::ranked_is_sorted::<String>(q);
    let x = crate::order::ranked::<String>(p);
    let y = crate::order::ranked::<String>(q);
    assert forall|t: Seq<char>| #[trigger] x.contains(t) <==> y.contains(t) by {
        assert(p.contains(t) <==> q.contains(t));
    }
    lemma_sorted_unique(x, y);
}

} // verus!
