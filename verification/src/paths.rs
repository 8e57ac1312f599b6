//! Paths as texts with `/` between their parts.

use vstd::prelude::*;

use crate::text::{chars_of, empty, ends_with, string_of};

verus! {

/// The path of `name`, a relative path, inside `dir`.
pub open spec fn joined(dir: Seq<char>, name: Seq<char>) -> Seq<char> {
    if dir.len() == 0 || dir.last() == '/' {
        dir + name
    } else {
        dir + "/"@ + name
    }
}

/// The path of `name`, a relative path, inside `dir`.
pub fn join_path(dir: &str, name: &str) -> (r: String)
    ensures
        r@ == joined(dir@, name@),
{
    proof {
        reveal_strlit("/");
        if dir@.len() > 0 {
            let t = dir@.subrange(dir@.len() - 1, dir@.len() as int);
            assert(t[0] == dir@.last());
            assert(dir@.last() == '/' ==> t =~= "/"@);
        }
    }
    let mut out = dir.to_owned();
    if !empty(dir) && !ends_with(dir, "/") {
        out.append("/");
    }
    out.append(name);
    out
}

/// A path without separators and `.` parts at its end.
pub open spec fn bare(path: Seq<char>) -> Seq<char>
    decreases path.len(),
{
    if path.len() >= 2 && path.last() == '/' {
        bare(path.drop_last())
    } else if path.len() >= 2 && path.last() == '.' && path[path.len() - 2] == '/' {
        bare(path.drop_last())
    } else {
        path
    }
}

/// The place behind the last separator before `i`.
pub open spec fn part_start(path: Seq<char>, i: int) -> int
    decreases i,
{
    if i <= 0 || i > path.len() {
        0
    } else if path[i - 1] == '/' {
        i
    } else {
        part_start(path, i - 1)
    }
}

/// The path of the directory that holds a path; none for a root or an empty
/// path.
pub open spec fn parent_of(path: Seq<char>) -> Option<Seq<char>> {
    let b = bare(path);
    if b.len() == 0 || b == "/"@ {
        None
    } else {
        Some(bare(b.take(part_start(b, b.len() as int))))
    }
}

/// The last part of a path, where it names something.
pub open spec fn name_in(path: Seq<char>) -> Option<Seq<char>> {
    let b = bare(path);
    let name = b.skip(part_start(b, b.len() as int));
    if b.len() == 0 || b == "/"@ || name == "."@ || name == ".."@ {
        None
    } else {
        Some(name)
    }
}

/// The place of the last dot before `i`; -1 where there is none.
pub open spec fn last_dot(s: Seq<char>, i: int) -> int
    decreases i,
{
    if i <= 0 || i > s.len() {
        -1
    } else if s[i - 1] == '.' {
        i - 1
    } else {
        last_dot(s, i - 1)
    }
}

/// The extension of the name in a path: what stands behind its last dot, unless
/// the name begins there.
pub open spec fn extension_in(path: Seq<char>) -> Option<Seq<char>> {
    match name_in(path) {
        None => None,
        Some(name) => {
            let d = last_dot(name, name.len() as int);
            if d <= 0 {
                None
            } else {
                Some(name.skip(d + 1))
            }
        },
    }
}

/// The length of a path without separators and `.` parts at its end.
fn bare_len(v: &Vec<char>, len: usize) -> (r: usize)
    requires
        len <= v@.len(),
    ensures
        r <= len,
        v@.take(r as int) == bare(v@.take(len as int)),
{
    let mut n: usize = len;
    while n >= 2 && (v[n - 1] == '/' || (v[n - 1] == '.' && v[n - 2] == '/'))
        invariant
            n <= len <= v@.len(),
            bare(v@.take(n as int)) == bare(v@.take(len as int)),
        decreases n,
    {
        assert(v@.take(n as int).drop_last() =~= v@.take(n - 1));
        n = n - 1;
    }
    n
}

/// The place behind the last separator before `len`.
fn find_part_start(v: &Vec<char>, len: usize) -> (r: usize)
    requires
        len <= v@.len(),
    ensures
        r <= len,
        r == part_start(v@.take(len as int), len as int),
{
    let ghost b = v@.take(len as int);
    let mut i: usize = len;
    while i > 0 && v[i - 1] != '/'
        invariant
            i <= len <= v@.len(),
            b == v@.take(len as int),
            part_start(b, len as int) == part_start(b, i as int),
        decreases i,
    {
        i = i - 1;
    }
    i
}

/// The path of the directory that holds a path.
pub fn parent_dir(path: &str) -> (r: Option<String>)
    ensures
        crate::text::opt_text(r) == parent_of(path@),
{
    let v = chars_of(path);
    let n = bare_len(&v, v.len());
    assert(v@.take(v@.len() as int) =~= path@);
    proof {
        reveal_strlit("/");
        assert(n == 1 && v@[0] == '/' ==> v@.take(1) =~= "/"@);
    }
    if n == 0 || (n == 1 && v[0] == '/') {
        return None;
    }
    assert(bare(path@)[0] == v@[0]);
    let i = find_part_start(&v, n);
    let m = bare_len(&v, i);
    assert(v@.take(n as int).take(i as int) =~= v@.take(i as int));
    let r = string_of(&v, 0, m);
    assert(r@ =~= v@.take(m as int));
    Some(r)
}

/// The last part of a path, where it names something.
pub fn file_name(path: &str) -> (r: Option<String>)
    ensures
        crate::text::opt_text(r) == name_in(path@),
{
    let v = chars_of(path);
    let n = bare_len(&v, v.len());
    assert(v@.take(v@.len() as int) =~= path@);
    proof {
        reveal_strlit("/");
        assert(n == 1 && v@[0] == '/' ==> v@.take(1) =~= "/"@);
    }
    if n == 0 || (n == 1 && v[0] == '/') {
        return None;
    }
    assert(bare(path@)[0] == v@[0]);
    let i = find_part_start(&v, n);
    let name = string_of(&v, i, n);
    assert(name@ =~= v@.take(n as int).skip(i as int));
    if crate::text::same(name.as_str(), ".") || crate::text::same(name.as_str(), "..") {
        None
    } else {
        Some(name)
    }
}

/// The extension of the name in a path.
pub fn extension(path: &str) -> (r: Option<String>)
    ensures
        crate::text::opt_text(r) == extension_in(path@),
{
    let name = match file_name(path) {
        Some(name) => name,
        None => {
            return None;
        },
    };
    let v = chars_of(name.as_str());
    let mut i: usize = v.len();
    while i > 0 && v[i - 1] != '.'
        invariant
            i <= v@.len(),
            last_dot(v@, v@.len() as int) == last_dot(v@, i as int),
        decreases i,
    {
        i = i - 1;
    }
    if i <= 1 {
        return None;
    }
    let r = string_of(&v, i, v.len());
    assert(r@ =~= name@.skip(i as int));
    Some(r)
}

/// Whether a text is one ordinary part of a path.
pub open spec fn one_part(name: Seq<char>) -> bool {
    &&& name.len() > 0
    &&& forall|i: int| 0 <= i < name.len() ==> #[trigger] name[i] != '/'
    &&& name != "."@
    &&& name != ".."@
}

/// The last part of a path begins behind the last separator.
proof fn lemma_part_start(path: Seq<char>, n: int, i: int)
    requires
        0 < n <= i <= path.len(),
        path[n - 1] == '/',
        forall|k: int| n <= k < i ==> #[trigger] path[k] != '/',
    ensures
        part_start(path, i) == n,
    decreases i - n,
{
    if i > n {
        assert(path[i - 1] != '/');
        lemma_part_start(path, n, i - 1);
    }
}

/// A path that ends with an ordinary part is bare.
proof fn lemma_ends_bare(dir: Seq<char>, name: Seq<char>)
    requires
        one_part(name),
    ensures
        bare(dir + "/"@ + name) == dir + "/"@ + name,
        part_start(dir + "/"@ + name, (dir + "/"@ + name).len() as int) == dir.len() + 1,
        dir + "/"@ + name != "/"@,
{
    reveal_strlit("/");
    reveal_strlit(".");
    let path = dir + "/"@ + name;
    let n = dir.len() + 1;
    assert(path.last() == name[name.len() - 1]);
    if name.last() == '.' {
        if name.len() == 1 {
            assert(name =~= "."@);
        }
        assert(path[path.len() - 2] == name[name.len() - 2]);
    }
    assert forall|k: int| n <= k < path.len() implies #[trigger] path[k] != '/' by {
        assert(path[k] == name[k - n]);
    }
    lemma_part_start(path, n as int, path.len() as int);
}

/// A path in a directory has the name that it was made with, and the directory
/// holds it.
pub proof fn path_has_its_name_and_its_directory(dir: Seq<char>, name: Seq<char>)
    requires
        one_part(name),
    ensures
        name_in(dir + "/"@ + name) == Some(name),
        parent_of(dir + "/"@ + name) == Some(bare(dir + "/"@)),
        dir.len() > 0 && dir.last() != '/' ==> bare(dir + "/"@) == bare(dir),
{
    reveal_strlit("/");
    let path = dir + "/"@ + name;
    let n = dir.len() + 1;
    lemma_ends_bare(dir, name);
    assert(path.skip(n as int) =~= name);
    assert(path.take(n as int) =~= dir + "/"@);
    assert((dir + "/"@).drop_last() =~= dir);
}

/// The extension of a file is what stands behind the last dot of its name.
pub proof fn extension_stands_behind_the_last_dot(
    dir: Seq<char>,
    stem: Seq<char>,
    ext: Seq<char>,
)
    requires
        one_part(stem + "."@ + ext),
        stem.len() > 0,
        forall|i: int| 0 <= i < ext.len() ==> #[trigger] ext[i] != '.',
    ensures
        extension_in(dir + "/"@ + (stem + "."@ + ext)) == Some(ext),
{
    reveal_strlit(".");
    let name = stem + "."@ + ext;
    path_has_its_name_and_its_directory(dir, name);
    assert forall|k: int| stem.len() + 1 <= k < name.len() implies #[trigger] name[k] != '.' by {
        assert(name[k] == ext[k - stem.len() - 1]);
    }
    lemma_last_dot(name, stem.len() as int, name.len() as int);
    assert(name.skip(stem.len() as int + 1) =~= ext);
}

/// Where the last dot of a name stands.
proof fn lemma_last_dot(s: Seq<char>, d: int, i: int)
    requires
        0 <= d < i <= s.len(),
        s[d] == '.',
        forall|k: int| d < k < i ==> #[trigger] s[k] != '.',
    ensures
        last_dot(s, i) == d,
    decreases i - d,
{
    if i - 1 > d {
        assert(s[i - 1] != '.');
        lemma_last_dot(s, d, i - 1);
    }
}

/// A name without a dot, and one that only begins with a dot, has no extension.
pub proof fn plain_name_has_no_extension(dir: Seq<char>, name: Seq<char>)
    requires
        one_part(name),
        forall|i: int| 0 < i < name.len() ==> #[trigger] name[i] != '.',
    ensures
        extension_in(dir + "/"@ + name) is None,
{
    path_has_its_name_and_its_directory(dir, name);
    lemma_no_dot(name, name.len() as int);
}

/// No dot stands behind the first character.
proof fn lemma_no_dot(s: Seq<char>, i: int)
    requires
        0 <= i <= s.len(),
        forall|k: int| 0 < k < s.len() ==> #[trigger] s[k] != '.',
    ensures
        last_dot(s, i) <= 0,
    decreases i,
{
    if i > 0 {
        if i > 1 {
            assert(s[i - 1] != '.');
        }
        lemma_no_dot(s, i - 1);
    }
}

} // verus!
