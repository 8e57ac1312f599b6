//! What holds of every run in the sandbox: what a script is given and what it is
//! not, which files are found, and what is installed.

use vstd::prelude::*;

use crate::error::ApiErrorKind;
use crate::paths::joined;
use crate::sandbox::envprep::{
    distinct, env_files, hash_of, install_of, normalized, tail_of, uv_error, UvEnd,
};
use crate::sandbox::exec::{
    all_words, command_line, isolation, option_words, read_mounts, recipe,
    system_mounts, variables, work_mount, OptionView, RunSpecView,
};
use crate::sandbox::limits::{capped, threads_of, ProcEntryView};
use crate::sandbox::workspace::{
    any_unsafe, below, candidate_for, inside, internal, name_fault, ordinary, path_parts,
    served, unsafe_part, visited, EntryKind, FileStamp, FileStampView, Resolved, Visit,
    MAX_SCAN_ENTRIES,
};
use crate::sandbox::{first_file, host_fault, pythons, usable, HostRun};
use crate::text::{split, trim};

verus! {

/// Whether words stand side by side on a command line.
pub open spec fn says(words: Seq<Seq<char>>, part: Seq<Seq<char>>) -> bool {
    exists|i: int| says_at(words, part, i)
}

/// Whether words stand side by side on a command line from a place on.
pub open spec fn says_at(words: Seq<Seq<char>>, part: Seq<Seq<char>>, i: int) -> bool {
    0 <= i && i + part.len() <= words.len() && words.subrange(i, i + part.len()) == part
}

/// Every option is said.
proof fn lemma_said(options: Seq<OptionView>, k: int)
    requires
        0 <= k < options.len(),
    ensures
        says(all_words(options), option_words(options[k])),
    decreases options.len(),
{
    let less = options.drop_last();
    let words = all_words(options);
    let part = option_words(options[k]);
    if k == options.len() - 1 {
        let i = all_words(less).len() as int;
        assert(words.subrange(i, i + part.len()) =~= part);
        assert(says_at(words, part, i));
    } else {
        assert(less[k] == options[k]);
        lemma_said(less, k);
        let i = choose|i: int| says_at(all_words(less), part, i);
        assert(words.subrange(i, i + part.len()) =~= all_words(less).subrange(i, i + part.len()));
        assert(says_at(words, part, i));
    }
}

/// What is said before the interpreter is said on the whole command line.
proof fn lemma_on_line(s: RunSpecView, part: Seq<Seq<char>>)
    requires
        says(all_words(recipe(s)), part),
    ensures
        says(command_line(s), part),
{
    let words = all_words(recipe(s));
    let i = choose|i: int| says_at(words, part, i);
    assert(command_line(s).subrange(i, i + part.len()) =~= words.subrange(i, i + part.len()));
    assert(says_at(command_line(s), part, i));
}

/// An option of the recipe is said on the command line.
proof fn lemma_option(s: RunSpecView, k: int)
    requires
        0 <= k < recipe(s).len(),
    ensures
        says(command_line(s), option_words(recipe(s)[k])),
{
    lemma_said(recipe(s), k);
    lemma_on_line(s, option_words(recipe(s)[k]));
}

/// A script starts in its workspace, which it can write, and is told where that
/// is.
pub proof fn script_has_its_workspace(s: RunSpecView)
    ensures
        says(command_line(s), seq!["--bind"@, s.workspace, "/workspace"@]),
        says(command_line(s), seq!["--chdir"@, "/workspace"@]),
        says(command_line(s), seq!["--setenv"@, "KAERU_WORKSPACE"@, "/workspace"@]),
{
    let b = isolation(s.network) + system_mounts() + read_mounts(s);
    let c = b + work_mount(s);
    let n = b.len() as int;
    let m = c.len() as int;
    assert(says(command_line(s), seq!["--bind"@, s.workspace, "/workspace"@])) by {
        assert(recipe(s)[n] == work_mount(s)[0]);
        lemma_option(s, n);
    }
    assert(says(command_line(s), seq!["--chdir"@, "/workspace"@])) by {
        assert(recipe(s)[n + 2] == work_mount(s)[2]);
        lemma_option(s, n + 2);
    }
    assert(says(command_line(s), seq!["--setenv"@, "KAERU_WORKSPACE"@, "/workspace"@])) by {
        assert(recipe(s)[m + 7] == variables(s)[7]);
        lemma_option(s, m + 7);
    }
}

/// A script can read every further path, and its environment in the place that
/// it is looked for in.
pub proof fn script_has_its_files(s: RunSpecView, k: int)
    ensures
        0 <= k < s.read_paths.len() ==> says(
            command_line(s),
            seq!["--ro-bind-try"@, s.read_paths[k], s.read_paths[k]],
        ),
        match s.env {
            Some(e) => says(command_line(s), seq!["--ro-bind"@, e, "/opt/env"@]),
            None => true,
        },
{
    let a = isolation(s.network) + system_mounts();
    let n = a.len() as int;
    if 0 <= k < s.read_paths.len() {
        assert(recipe(s)[n + k] == read_mounts(s)[k]);
        assert(read_mounts(s)[k] == OptionView::ReadOnlyTry(s.read_paths[k]));
        lemma_option(s, n + k);
    }
    if s.env is Some {
        let last = s.read_paths.len() as int;
        assert(recipe(s)[n + last] == read_mounts(s)[last]);
        lemma_option(s, n + last);
    }
}

/// The first words of a command line.
proof fn lemma_first_words(options: Seq<OptionView>, n: int)
    requires
        0 <= n <= options.len(),
    ensures
        all_words(options).len() >= all_words(options.take(n)).len(),
        all_words(options).take(all_words(options.take(n)).len() as int) == all_words(
            options.take(n),
        ),
    decreases options.len(),
{
    if n == options.len() {
        assert(options.take(n) =~= options);
        assert(all_words(options).take(all_words(options).len() as int) =~= all_words(options));
    } else {
        let less = options.drop_last();
        assert(less.take(n) =~= options.take(n));
        lemma_first_words(less, n);
        let m = all_words(options.take(n)).len() as int;
        assert(all_words(options).take(m) =~= all_words(less).take(m));
    }
}

/// Every run is cut off before anything is handed to it, and its root cannot be
/// written; a run that asks for the network gets it.
pub proof fn run_is_cut_off(s: RunSpecView)
    ensures
        command_line(s).take(4) == seq![
            "--unshare-all"@,
            "--new-session"@,
            "--die-with-parent"@,
            "--clearenv"@,
        ],
        says(command_line(s), seq!["--remount-ro"@, "/"@]),
        s.network ==> says(command_line(s), seq!["--share-net"@]),
{
    let first = recipe(s).take(4);
    assert(first =~= isolation(false));
    lemma_first_words(recipe(s), 4);
    reveal_with_fuel(all_words, 5);
    let f3 = first.drop_last();
    let f2 = f3.drop_last();
    let f1 = f2.drop_last();
    assert(f1.drop_last() =~= seq![]);
    assert(all_words(first) =~= seq![
        "--unshare-all"@,
        "--new-session"@,
        "--die-with-parent"@,
        "--clearenv"@,
    ]);
    assert(command_line(s).take(4) =~= all_words(recipe(s)).take(4));
    let b = isolation(s.network) + system_mounts() + read_mounts(s);
    let n = b.len() as int;
    assert(recipe(s)[n + 1] == work_mount(s)[1]);
    lemma_option(s, n + 1);
    if s.network {
        assert(recipe(s)[4] == OptionView::ShareNet);
        lemma_option(s, 4);
    }
}

/// What is run is the interpreter of the environment, or the system's where
/// there is none; it reads the script from its input.
pub proof fn script_is_run_by_its_interpreter(s: RunSpecView)
    ensures
        ({
            let line = command_line(s);
            let n = line.len() as int;
            &&& n >= 3
            &&& line[n - 3] == "--"@
            &&& line[n - 2] == match s.env {
                Some(_) => "/opt/env/bin/python"@,
                None => s.python,
            }
            &&& line[n - 1] == "-"@
        }),
{
    reveal_strlit("/opt/env/bin/python");
    reveal_strlit("/opt/env");
    reveal_strlit("/bin/python");
    assert("/opt/env"@ + "/bin/python"@ =~= "/opt/env/bin/python"@);
}

/// Every script finds the same variables; with an environment, its programs come
/// first.
pub proof fn script_has_its_variables(s: RunSpecView)
    ensures
        says(command_line(s), seq!["--setenv"@, "HOME"@, "/tmp"@]),
        says(command_line(s), seq!["--setenv"@, "LANG"@, "C.UTF-8"@]),
        says(command_line(s), seq!["--setenv"@, "LC_ALL"@, "C.UTF-8"@]),
        says(command_line(s), seq!["--setenv"@, "PYTHONDONTWRITEBYTECODE"@, "1"@]),
        says(command_line(s), seq!["--setenv"@, "PYTHONUNBUFFERED"@, "1"@]),
        says(command_line(s), seq!["--setenv"@, "MPLBACKEND"@, "Agg"@]),
        s.env is Some ==> says(
            command_line(s),
            seq!["--setenv"@, "PATH"@, "/opt/env/bin:/usr/bin:/bin"@],
        ),
{
    reveal_strlit("/opt/env/bin:/usr/bin:/bin");
    reveal_strlit("/opt/env");
    reveal_strlit("/bin");
    reveal_strlit(":/usr/bin:/bin");
    assert("/opt/env"@ + "/bin"@ + ":/usr/bin:/bin"@ =~= "/opt/env/bin:/usr/bin:/bin"@);
    let c = isolation(s.network) + system_mounts() + read_mounts(s) + work_mount(s);
    let n = c.len() as int;
    assert(recipe(s)[n] == variables(s)[0]);
    assert(recipe(s)[n + 1] == variables(s)[1]);
    assert(recipe(s)[n + 2] == variables(s)[2]);
    assert(recipe(s)[n + 3] == variables(s)[3]);
    assert(recipe(s)[n + 4] == variables(s)[4]);
    assert(recipe(s)[n + 5] == variables(s)[5]);
    assert(recipe(s)[n + 6] == variables(s)[6]);
    lemma_option(s, n);
    lemma_option(s, n + 1);
    lemma_option(s, n + 2);
    lemma_option(s, n + 3);
    lemma_option(s, n + 4);
    lemma_option(s, n + 5);
    lemma_option(s, n + 6);
}

/// The pieces of two texts with a separator between them.
pub(crate) proof fn lemma_split_join(a: Seq<char>, b: Seq<char>, c: char)
    ensures
        split(a + seq![c] + b, c) == split(a, c) + split(b, c),
    decreases a.len(),
{
    let all = a + seq![c] + b;
    if a.len() == 0 {
        assert(all.skip(1) =~= b);
        assert(a =~= Seq::<char>::empty());
        assert(split(all, c) =~= split(a, c) + split(b, c));
    } else {
        let rest = a.skip(1);
        assert(all.skip(1) =~= rest + seq![c] + b);
        lemma_split_join(rest, b, c);
        crate::text::lemma_split_len(rest, c);
        assert(split(all, c) =~= split(a, c) + split(b, c));
    }
}

/// The parts that count of two lists of pieces.
proof fn lemma_parts_add(a: Seq<Seq<char>>, b: Seq<Seq<char>>)
    ensures
        path_parts(a + b) == path_parts(a) + path_parts(b),
    decreases b.len(),
{
    if b.len() == 0 {
        assert(a + b =~= a);
        assert(path_parts(a) + path_parts(b) =~= path_parts(a));
    } else {
        assert((a + b).drop_last() =~= a + b.drop_last());
        lemma_parts_add(a, b.drop_last());
        assert(path_parts(a + b) =~= path_parts(a) + path_parts(b));
    }
}

/// A path goes through its first part.
proof fn lemma_below_first(root: Seq<char>, x: Seq<char>, rest: Seq<Seq<char>>)
    ensures
        below(root, seq![x] + rest) == below(joined(root, x), rest),
    decreases rest.len(),
{
    let all = seq![x] + rest;
    if rest.len() == 0 {
        assert(all.drop_last() =~= seq![]);
        assert(below(root, all.drop_last()) == root);
    } else {
        assert(all.drop_last() =~= seq![x] + rest.drop_last());
        lemma_below_first(root, x, rest.drop_last());
    }
}

/// Ordinary parts below a directory.
proof fn lemma_below_text(root: Seq<char>, rel: Seq<char>)
    requires
        root.len() > 0,
        root.last() != '/',
        !any_unsafe(split(rel, '/')),
    ensures
        below(root, split(rel, '/')) == root + "/"@ + rel,
    decreases rel.len(),
{
    reveal_strlit("/");
    if forall|k: int| 0 <= k < rel.len() ==> rel[k] != '/' {
        crate::text::lemma_split_none(rel, '/');
        assert(seq![rel].drop_last() =~= seq![]);
        assert(below(root, seq![rel].drop_last()) == root);
        assert(seq![rel].last() == rel);
    } else {
        let j = choose|k: int| 0 <= k < rel.len() && rel[k] == '/';
        let i = lemma_first_slash(rel, j);
        crate::text::lemma_split_at(rel, '/', i);
        let x = rel.take(i);
        let rest = rel.skip(i + 1);
        let parts = split(rel, '/');
        assert(parts[0] == x);
        assert(!unsafe_part(parts[0]));
        assert(!any_unsafe(split(rest, '/'))) by {
            assert forall|k: int| 0 <= k < split(rest, '/').len() implies !unsafe_part(
                #[trigger] split(rest, '/')[k],
            ) by {
                assert(parts[k + 1] == split(rest, '/')[k]);
            }
        }
        lemma_below_first(root, x, split(rest, '/'));
        let next = root + "/"@ + x;
        assert(next.last() == x.last());
        assert(x.last() == rel[i - 1]);
        lemma_below_text(next, rest);
        assert(next + "/"@ + rest =~= root + "/"@ + rel);
    }
}

/// The first separator of a text that has one.
proof fn lemma_first_slash(s: Seq<char>, j: int) -> (i: int)
    requires
        0 <= j < s.len(),
        s[j] == '/',
    ensures
        0 <= i <= j,
        s[i] == '/',
        forall|k: int| 0 <= k < i ==> s[k] != '/',
    decreases j,
{
    if forall|k: int| 0 <= k < j ==> s[k] != '/' {
        j
    } else {
        lemma_first_slash(s, choose|k: int| 0 <= k < j && s[k] == '/')
    }
}

/// What is looked up for an accepted path is that path below the workspace, and
/// nothing else.
pub proof fn path_leads_to_the_file(shown: Seq<char>, root: Seq<char>, rel: Seq<char>)
    requires
        root.len() > 0,
        root.last() != '/',
    ensures
        candidate_for(shown, Ok(root), rel) matches Ok(c) ==> c.path == root + "/"@ + rel && c.root
            == root && c.rel == rel,
{
    if candidate_for(shown, Ok(root), rel) is Ok {
        lemma_below_text(root, rel);
    }
}

/// A file under an accepted name can be asked for by that name.
pub proof fn accepted_name_can_be_asked_for(shown: Seq<char>, root: Seq<char>, name: Seq<char>)
    requires
        name_fault(name) is None,
        root.len() > 0,
        root.last() != '/',
    ensures
        candidate_for(shown, Ok(root), name) matches Ok(c) && c.path == root + "/"@ + name,
{
    crate::sandbox::workspace::safe_name_is_one_part(name);
    assert forall|k: int| 0 <= k < name.len() implies name[k] != '/' by {
        if name[k] == '/' {
            assert(name.contains('/'));
        }
    }
    crate::text::lemma_split_none(name, '/');
    assert(!any_unsafe(seq![name])) by {
        assert(!unsafe_part(seq![name][0]));
    }
    lemma_below_text(root, name);
}

/// A path through a directory is accepted exactly where both of its halves are.
pub proof fn accepted_paths_nest(a: Seq<char>, b: Seq<char>)
    ensures
        ordinary(a + "/"@ + b) <==> ordinary(a) && ordinary(b),
{
    reveal_strlit("/");
    let all = a + seq!['/'] + b;
    assert(a + "/"@ + b =~= all);
    lemma_split_join(a, b, '/');
    let x = split(a, '/');
    let y = split(b, '/');
    crate::text::lemma_split_len(b, '/');
    if b.len() == 0 || b[0] == '/' {
        assert(unsafe_part(y[0]));
        assert((x + y)[x.len() as int] == y[0]);
    }
    if a.len() > 0 {
        assert(all[0] == a[0]);
    }
    if any_unsafe(x + y) {
        let i = choose|i: int| 0 <= i < (x + y).len() && unsafe_part(#[trigger] (x + y)[i]);
        if i < x.len() {
            assert(unsafe_part(x[i]));
        } else {
            assert(unsafe_part(y[i - x.len()]));
        }
    }
    if any_unsafe(x) {
        let i = choose|i: int| 0 <= i < x.len() && unsafe_part(#[trigger] x[i]);
        assert(unsafe_part((x + y)[i]));
    }
    if any_unsafe(y) {
        let i = choose|i: int| 0 <= i < y.len() && unsafe_part(#[trigger] y[i]);
        assert(unsafe_part((x + y)[i + x.len()]));
    }
}

/// Whatever lies below a directory lies inside it.
pub proof fn what_lies_below_is_inside(root: Seq<char>, rel: Seq<char>)
    ensures
        inside(root, root + "/"@ + rel),
        inside(root, root),
{
    reveal_strlit("/");
    assert(root + "/"@ + rel =~= root + seq!['/'] + rel);
    lemma_split_join(root, rel, '/');
    lemma_parts_add(split(root, '/'), split(rel, '/'));
    let a = path_parts(split(root, '/'));
    let b = path_parts(split(root, '/') + split(rel, '/'));
    assert(b.take(a.len() as int) =~= a);
    assert(a.take(a.len() as int) =~= a);
}

/// A neighbour is not inside, however alike the names are; neither is the
/// directory that holds both.
pub proof fn neighbour_is_not_inside(dir: Seq<char>, a: Seq<char>, b: Seq<char>)
    requires
        name_fault(a) is None,
        name_fault(b) is None,
        a != b,
    ensures
        !inside(dir + "/"@ + a, dir + "/"@ + b),
        !inside(dir + "/"@ + a, dir),
{
    reveal_strlit("/");
    lemma_one_part(dir, a);
    lemma_one_part(dir, b);
    let p = path_parts(split(dir, '/'));
    let x = p.push(a);
    let y = p.push(b);
    assert(x.last() != y.last());
    assert(y.take(x.len() as int) =~= y);
}

/// The parts that count of a name in a directory.
proof fn lemma_one_part(dir: Seq<char>, name: Seq<char>)
    requires
        name_fault(name) is None,
    ensures
        path_parts(split(dir + "/"@ + name, '/')) == path_parts(split(dir, '/')).push(name),
{
    reveal_strlit("/");
    crate::sandbox::workspace::safe_name_is_one_part(name);
    assert forall|k: int| 0 <= k < name.len() implies name[k] != '/' by {
        if name[k] == '/' {
            assert(name.contains('/'));
        }
    }
    crate::text::lemma_split_none(name, '/');
    assert(dir + "/"@ + name =~= dir + seq!['/'] + name);
    lemma_split_join(dir, name, '/');
    lemma_parts_add(split(dir, '/'), seq![name]);
    assert(seq![name].drop_last() =~= seq![]);
    reveal_with_fuel(path_parts, 2);
    assert(path_parts(seq![name]) =~= seq![name]);
}

/// What a path resolves to is served exactly where it is inside the workspace,
/// and then it is what is served; a file that is not there is not found, one
/// outside is forbidden.
pub proof fn only_what_is_inside_is_served(root: Seq<char>, rel: Seq<char>, resolved: Resolved)
    ensures
        match (resolved, served(root, rel, resolved)) {
            (Resolved::Path(p), Ok(file)) => inside(root, p@) && file == p@,
            (Resolved::Path(p), Err(e)) => !inside(root, p@) && e.kind == ApiErrorKind::Forbidden,
            (_, Ok(_)) => false,
            (_, Err(e)) => e.kind == ApiErrorKind::NotFound,
        },
{
}

/// Whether an entry is one that a user made: a name that begins with a dot, the
/// bytecode cache and bytecode files are not.
pub open spec fn of_the_user(name: Seq<char>) -> bool {
    &&& name.len() > 0 ==> name[0] != '.'
    &&& name != "__pycache__"@
    &&& name.len() >= 4 ==> name.skip(name.len() - 4) != ".pyc"@
}

/// Every file and link of the user is added behind what was found before, every
/// directory of the user is walked, and nothing else is touched; only a full
/// scan stops.
pub proof fn every_file_of_the_user_is_found(
    files: Seq<FileStampView>,
    name: Seq<char>,
    kind: EntryKind,
    stamp: FileStampView,
)
    ensures
        ({
            let (visit, after) = visited(files, name, kind, stamp);
            &&& visit == Visit::Stop <==> files.len() >= MAX_SCAN_ENTRIES
            &&& visit == Visit::Descend <==> files.len() < MAX_SCAN_ENTRIES && of_the_user(name)
                && kind == EntryKind::Directory
            &&& after.len() > files.len() <==> files.len() < MAX_SCAN_ENTRIES && of_the_user(name)
                && (kind == EntryKind::File || kind == EntryKind::Link)
            &&& after == files || (after.drop_last() == files && after.last() == stamp)
        }),
{
    reveal_strlit(".");
    reveal_strlit(".pyc");
    assert(internal(name) <==> !of_the_user(name)) by {
        if name.len() > 0 {
            assert(name.subrange(0, 1) =~= seq![name[0]]);
            assert("."@ =~= seq!['.']);
            assert(name[0] == '.' ==> name.subrange(0, 1) =~= "."@);
            assert(name.subrange(0, 1) == "."@ ==> name.subrange(0, 1)[0] == '.');
        }
        if name.len() >= 4 {
            assert(name.skip(name.len() - 4) =~= name.subrange(name.len() - 4, name.len() as int));
        }
    }
    assert(files.push(stamp).drop_last() =~= files);
}

/// A snapshot holds what was found, each file once, in the order of the paths.
pub proof fn snapshot_is_in_order(files: Seq<FileStampView>)
    ensures
        ({
            let r = crate::order::ranked::<FileStamp>(files);
            &&& r.to_multiset() == files.to_multiset()
            &&& forall|i: int, j: int|
                0 <= i < j < r.len() ==> !crate::text::lex_lt(
                    (#[trigger] r[j]).path,
                    (#[trigger] r[i]).path,
                )
        }),
{
    crate::order::ranked_is_sorted::<FileStamp>(files);
    let r = crate::order::ranked::<FileStamp>(files);
    assert forall|i: int, j: int| 0 <= i < j < r.len() implies !crate::text::lex_lt(
        (#[trigger] r[j]).path,
        (#[trigger] r[i]).path,
    ) by {
        assert(!<FileStamp as crate::order::Ranked>::before(r[j], r[i]));
    }
}

/// The threads of a user add up over the process table.
pub proof fn threads_add_up(a: Seq<ProcEntryView>, b: Seq<ProcEntryView>, uid: u32)
    ensures
        threads_of(a + b, uid) == capped(threads_of(a, uid) + threads_of(b, uid)),
    decreases b.len(),
{
    if b.len() == 0 {
        assert(a + b =~= a);
    } else {
        assert((a + b).drop_last() =~= a + b.drop_last());
        threads_add_up(a, b.drop_last(), uid);
    }
}

/// A process of the user counts with its threads, at least as one; a process of
/// another user, one that is gone and an entry that is no process do not count.
pub proof fn only_own_processes_count(e: ProcEntryView, uid: u32)
    ensures
        ({
            let n = threads_of(seq![e], uid);
            let own = e.uid == Some(uid) && crate::text::u32_value(e.name) is Some;
            &&& !own ==> n == 0
            &&& own && e.threads is None ==> n == 1
            &&& own && e.threads is Some ==> e.threads == Some(n)
        }),
{
    reveal_with_fuel(threads_of, 2);
    assert(seq![e].drop_last() =~= seq![]);
}

/// The interpreter is the first candidate that is there; none is found exactly
/// where none is there.
pub proof fn first_interpreter_is_taken(is_file: Seq<bool>, from: int)
    requires
        0 <= from <= is_file.len(),
    ensures
        from <= first_file(is_file, from) <= is_file.len(),
        first_file(is_file, from) < is_file.len() ==> is_file[first_file(is_file, from)],
        forall|i: int| from <= i < first_file(is_file, from) ==> !is_file[i],
    decreases is_file.len() - from,
{
    if from < is_file.len() && !is_file[from] {
        first_interpreter_is_taken(is_file, from + 1);
    }
}

/// Each directory of the path gives one candidate, in its order, and the usual
/// place comes last.
pub proof fn path_is_searched_in_order(dirs: Seq<Seq<char>>, i: int)
    ensures
        pythons(dirs).len() == dirs.len() + 1,
        pythons(dirs).last() == "/usr/bin/python3"@,
        0 <= i < dirs.len() && dirs[i].len() > 0 && dirs[i].last() != '/' ==> pythons(dirs)[i]
            == dirs[i] + "/python3"@,
{
    reveal_strlit("/");
    reveal_strlit("python3");
    reveal_strlit("/python3");
    if 0 <= i < dirs.len() {
        assert("/"@ + "python3"@ =~= "/python3"@);
        assert(dirs[i] + "/"@ + "python3"@ =~= dirs[i] + "/python3"@);
    }
}

/// Every path that could be resolved can be read, and no other.
pub proof fn resolved_paths_are_kept(a: Seq<Option<Seq<char>>>, b: Seq<Option<Seq<char>>>)
    ensures
        usable(a + b) == usable(a) + usable(b),
        a.len() == 1 ==> usable(a) == match a[0] {
            Some(p) => seq![p],
            None => seq![],
        },
    decreases b.len(),
{
    if b.len() == 0 {
        assert(a + b =~= a);
        assert(usable(a) + usable(b) =~= usable(a));
    } else {
        assert((a + b).drop_last() =~= a + b.drop_last());
        resolved_paths_are_kept(a, b.drop_last());
        assert(usable(a + b) =~= usable(a) + usable(b));
    }
    if a.len() == 1 {
        reveal_with_fuel(usable, 2);
        assert(a.drop_last() =~= seq![]);
        assert(usable(a) =~= match a[0] {
            Some(p) => seq![p],
            None => seq![],
        });
    }
}

/// A host on which everything works is accepted, and any fault of it is one of
/// its configuration.
pub proof fn working_host_is_accepted(
    python: Seq<char>,
    bwrap: HostRun,
    uv: HostRun,
    python_is_file: bool,
    probe: HostRun,
)
    ensures
        host_fault(python, bwrap, uv, python_is_file, probe) is None <==> bwrap is Success
            && uv is Success && python_is_file && probe is Success,
        match host_fault(python, bwrap, uv, python_is_file, probe) {
            Some(e) => e.kind == ApiErrorKind::Config,
            None => true,
        },
{
}

/// Every dependency that was asked for is prepared once, without the white space
/// around it, and no other.
pub proof fn every_dependency_is_prepared_once(raw: Seq<Seq<char>>, dep: Seq<char>)
    ensures
        distinct(normalized(raw)),
        normalized(raw).contains(dep) <==> dep.len() > 0 && exists|i: int|
            0 <= i < raw.len() && trim(#[trigger] raw[i]) == dep,
{
    crate::sandbox::envprep::lemma_normalized(raw);
}

/// Dependencies stay in the order of the request: those asked for first come
/// first.
pub proof fn dependencies_keep_their_order(a: Seq<Seq<char>>, b: Seq<Seq<char>>)
    ensures
        normalized(a + b).len() >= normalized(a).len(),
        normalized(a + b).take(normalized(a).len() as int) == normalized(a),
    decreases b.len(),
{
    if b.len() == 0 {
        assert(a + b =~= a);
        assert(normalized(a).take(normalized(a).len() as int) =~= normalized(a));
    } else {
        assert((a + b).drop_last() =~= a + b.drop_last());
        dependencies_keep_their_order(a, b.drop_last());
        let n = normalized(a).len() as int;
        assert(normalized(a + b).take(n) =~= normalized(a + b.drop_last()).take(n));
    }
}

/// An installation ends up where the environment is looked for: once its
/// directory is moved, its marker and its interpreter are the files that show a
/// prepared environment. Until then it stands in a place of its own.
pub proof fn environment_is_installed_where_it_is_looked_for(
    envs: Seq<char>,
    python: Seq<char>,
    deps: Seq<Seq<char>>,
    pid: u32,
)
    ensures
        ({
            let i = install_of(envs, python, normalized(deps), pid);
            let (marker, interpreter) = env_files(envs, deps);
            &&& marker == joined(i.target, ".complete"@)
            &&& interpreter == joined(i.target, "bin/python"@)
            &&& i.marker == joined(i.tmp, ".complete"@)
            &&& i.tmp != i.target
        }),
{
    crate::sandbox::envprep::normalizing_twice_is_normalizing_once(deps);
    let id = hash_of(normalized(deps));
    let i = install_of(envs, python, normalized(deps), pid);
    reveal_strlit(".");
    reveal_strlit("/");
    assert(i.tmp.len() > i.target.len());
}

/// The installer makes the environment with the interpreter and installs every
/// dependency into it; none of them is read as an option.
pub proof fn installer_gets_every_dependency(
    envs: Seq<char>,
    python: Seq<char>,
    deps: Seq<Seq<char>>,
    pid: u32,
)
    ensures
        ({
            let i = install_of(envs, python, deps, pid);
            &&& says(i.venv_args, seq!["--python"@, python, i.tmp])
            &&& says(i.install_args, seq!["--python"@, joined(i.tmp, "bin/python"@), "--"@])
            &&& i.install_args.len() >= deps.len()
            &&& i.install_args.skip(i.install_args.len() - deps.len()) == deps
        }),
{
    let i = install_of(envs, python, deps, pid);
    let a = seq!["--python"@, python, i.tmp];
    let b = seq!["--python"@, joined(i.tmp, "bin/python"@), "--"@];
    assert(i.venv_args.subrange(1, 4) =~= a);
    assert(says_at(i.venv_args, a, 1));
    assert(i.install_args.subrange(2, 5) =~= b);
    assert(says_at(i.install_args, b, 2));
    assert(i.install_args.skip(i.install_args.len() - deps.len()) =~= deps);
}

/// What is kept of a long message is its end, as much of it as fits.
pub proof fn end_of_a_message_is_kept(text: Seq<char>, max: int)
    requires
        max >= 0,
    ensures
        ({
            let all = trim(text);
            let kept = tail_of(text, max);
            &&& kept.len() <= max
            &&& kept.len() <= all.len()
            &&& all.skip(all.len() - kept.len()) == kept
            &&& kept.len() < max ==> kept == all
        }),
{
    let all = trim(text);
    assert(all.skip(0) =~= all);
}

/// A run of the installer fails exactly where it did not succeed.
pub proof fn installer_fails_where_it_did_not_succeed(what: Seq<char>, end: UvEnd)
    ensures
        uv_error(what, end) is None <==> end is Success,
        match uv_error(what, end) {
            Some(e) => end is NotStarted || (e.message.len() >= what.len() && e.message.take(
                what.len() as int,
            ) == what),
            None => true,
        },
{
    match uv_error(what, end) {
        Some(e) => {
            if !(end is NotStarted) {
                assert(e.message.take(what.len() as int) =~= what);
            }
        },
        None => {},
    }
}

/// A run may start processes beyond those that the user has, exactly as many as
/// the margin says, as far as numbers reach.
pub proof fn run_has_its_margin(count: u64, limit: u64)
    requires
        call_ensures(crate::sandbox::limits::nproc_limit_from, (Some(count),), limit),
    ensures
        count <= u64::MAX - 64 ==> limit == count + 64,
        limit >= count,
{
}

/// A script succeeds where it ended in time with the code 0, and nowhere else.
pub proof fn only_code_zero_in_time_succeeds(o: &crate::sandbox::exec::ScriptOutcome, r: bool)
    requires
        call_ensures(crate::sandbox::exec::ScriptOutcome::success, (o,), r),
    ensures
        r <==> !o.timed_out && o.exit_code == Some(0i32),
{
}

} // verus!
