//! Character-level text operations: every function works on the sequence of
//! characters of a string and is specified over that sequence.

use vstd::prelude::*;

verus! {

/// The Unicode `White_Space` characters.
pub open spec fn is_space(c: char) -> bool {
    let n = c as u32;
    ||| 0x9 <= n <= 0xD
    ||| n == 0x20
    ||| n == 0x85
    ||| n == 0xA0
    ||| n == 0x1680
    ||| 0x2000 <= n <= 0x200A
    ||| n == 0x2028
    ||| n == 0x2029
    ||| n == 0x202F
    ||| n == 0x205F
    ||| n == 0x3000
}

/// The Unicode control characters (`Cc`).
pub open spec fn is_control_char(c: char) -> bool {
    let n = c as u32;
    n <= 0x1F || 0x7F <= n <= 0x9F
}

/// An ASCII digit.
pub open spec fn is_digit(c: char) -> bool {
    '0' <= c <= '9'
}

/// An ASCII letter or digit.
pub open spec fn is_alnum(c: char) -> bool {
    is_digit(c) || 'a' <= c <= 'z' || 'A' <= c <= 'Z'
}

/// The lower-case form of an ASCII upper-case letter; every other character
/// stands for itself.
pub open spec fn lower_char(c: char) -> char {
    if 'A' <= c <= 'Z' {
        (c as u8 + 32) as char
    } else {
        c
    }
}

/// Every ASCII upper-case letter turned to lower case.
pub open spec fn ascii_lower(s: Seq<char>) -> Seq<char> {
    s.map_values(|c: char| lower_char(c))
}

/// Whether `pat` stands in `s` at position `i`.
pub open spec fn occurs_at(s: Seq<char>, pat: Seq<char>, i: int) -> bool {
    0 <= i && i + pat.len() <= s.len() && s.subrange(i, i + pat.len()) == pat
}

/// The first position from `i` on at which `pat` stands in `s`.
pub open spec fn find_from(s: Seq<char>, pat: Seq<char>, i: int) -> Option<int>
    decreases s.len() + 1 - i,
{
    if i < 0 || i + pat.len() > s.len() {
        None
    } else if occurs_at(s, pat, i) {
        Some(i)
    } else {
        find_from(s, pat, i + 1)
    }
}

/// Whether `pat` stands anywhere in `s`.
pub open spec fn has(s: Seq<char>, pat: Seq<char>) -> bool {
    exists|i: int| occurs_at(s, pat, i)
}

/// Whether `s` begins with `pat`.
pub open spec fn begins(s: Seq<char>, pat: Seq<char>) -> bool {
    occurs_at(s, pat, 0)
}

/// Whether `s` ends with `pat`.
pub open spec fn ends(s: Seq<char>, pat: Seq<char>) -> bool {
    occurs_at(s, pat, s.len() - pat.len())
}

/// The first position of the character `c` in `s`.
pub open spec fn index_of_char(s: Seq<char>, c: char) -> Option<int>
    decreases s.len(),
{
    if s.len() == 0 {
        None
    } else if s[0] == c {
        Some(0)
    } else {
        match index_of_char(s.skip(1), c) {
            Some(i) => Some(i + 1),
            None => None,
        }
    }
}

/// The pieces of `s` between the separators `c`.
pub open spec fn split(s: Seq<char>, c: char) -> Seq<Seq<char>>
    decreases s.len(),
{
    if s.len() == 0 {
        seq![s]
    } else if s[0] == c {
        seq![Seq::<char>::empty()] + split(s.skip(1), c)
    } else {
        let rest = split(s.skip(1), c);
        rest.update(0, seq![s[0]] + rest[0])
    }
}

/// `s` without one trailing carriage return.
pub open spec fn strip_cr(s: Seq<char>) -> Seq<char> {
    if s.len() > 0 && s.last() == '\r' {
        s.drop_last()
    } else {
        s
    }
}

/// The lines of `s`: each ends with a line feed, with or without a carriage
/// return before it; the line ending belongs to no line and a last empty line
/// is not counted.
pub open spec fn line_seq(s: Seq<char>) -> Seq<Seq<char>>
    decreases s.len(),
{
    if s.len() == 0 {
        seq![]
    } else {
        match index_of_char(s, '\n') {
            None => seq![s],
            Some(i) => if 0 <= i < s.len() {
                seq![strip_cr(s.take(i))] + line_seq(s.skip(i + 1))
            } else {
                seq![s]
            },
        }
    }
}

/// `s` without the leading characters that `p` admits.
pub open spec fn drop_while(s: Seq<char>, p: spec_fn(char) -> bool) -> Seq<char>
    decreases s.len(),
{
    if s.len() > 0 && p(s[0]) {
        drop_while(s.skip(1), p)
    } else {
        s
    }
}

/// `s` without the trailing characters that `p` admits.
pub open spec fn drop_end(s: Seq<char>, p: spec_fn(char) -> bool) -> Seq<char>
    decreases s.len(),
{
    if s.len() > 0 && p(s.last()) {
        drop_end(s.drop_last(), p)
    } else {
        s
    }
}

/// `s` without white space at its start.
pub open spec fn trim_start(s: Seq<char>) -> Seq<char> {
    drop_while(s, |c: char| is_space(c))
}

/// `s` without white space at its end.
pub open spec fn trim_end(s: Seq<char>) -> Seq<char> {
    drop_end(s, |c: char| is_space(c))
}

/// `s` without white space at both ends.
pub open spec fn trim(s: Seq<char>) -> Seq<char> {
    trim_end(trim_start(s))
}

/// `s` with every occurrence of `pat` (taken from the left, without overlap)
/// replaced by `by`.
pub open spec fn replace(s: Seq<char>, pat: Seq<char>, by: Seq<char>) -> Seq<char>
    decreases s.len(),
{
    if pat.len() == 0 || s.len() < pat.len() {
        s
    } else if occurs_at(s, pat, 0) {
        by + replace(s.skip(pat.len() as int), pat, by)
    } else {
        seq![s[0]] + replace(s.skip(1), pat, by)
    }
}

/// The pieces of `parts` with `sep` between them.
pub open spec fn join(parts: Seq<Seq<char>>, sep: Seq<char>) -> Seq<char>
    decreases parts.len(),
{
    if parts.len() == 0 {
        seq![]
    } else if parts.len() == 1 {
        parts[0]
    } else {
        join(parts.drop_last(), sep) + sep + parts.last()
    }
}

/// The decimal digit for `d`.
pub open spec fn digit_char(d: int) -> char {
    (d + 48) as char
}

/// The decimal notation of a natural number.
pub open spec fn decimal(n: nat) -> Seq<char>
    decreases n,
{
    if n < 10 {
        seq![digit_char(n as int)]
    } else {
        decimal(n / 10).push(digit_char((n % 10) as int))
    }
}

/// `n` copies of `c`.
pub open spec fn copies(c: char, n: int) -> Seq<char> {
    Seq::new(
        if n > 0 {
            n as nat
        } else {
            0
        },
        |i: int| c,
    )
}

/// `s` filled up with zeros on its left to `width` characters.
pub open spec fn zero_padded(s: Seq<char>, width: int) -> Seq<char> {
    copies('0', width - s.len()) + s
}

/// The text of a sequence of strings.
pub open spec fn texts(v: Seq<String>) -> Seq<Seq<char>> {
    v.map_values(|s: String| s@)
}

/// The text of an optional string.
pub open spec fn opt_text(o: Option<String>) -> Option<Seq<char>> {
    match o {
        Some(s) => Some(s@),
        None => None,
    }
}

/// At most `max` characters of `s`, with an ellipsis in the last place where
/// something was left out.
pub open spec fn cut_text(s: Seq<char>, max: int) -> Seq<char> {
    if s.len() <= max {
        s
    } else {
        s.take(
            if max > 0 {
                max - 1
            } else {
                0
            },
        ).push('…')
    }
}

/// The first `max` characters of `s`, followed by an ellipsis where something
/// was left out.
pub open spec fn clip_text(s: Seq<char>, max: int) -> Seq<char> {
    if s.len() <= max {
        s
    } else {
        s.take(max).push('…')
    }
}

/// The order of strings: by the first character that differs, and a prefix
/// before what it begins.
pub open spec fn lex_lt(a: Seq<char>, b: Seq<char>) -> bool
    decreases a.len(),
{
    b.len() > 0 && (a.len() == 0 || a[0] < b[0] || (a[0] == b[0] && lex_lt(a.skip(1), b.skip(1))))
}

/// Nothing comes before itself.
pub proof fn lemma_lex_irreflexive(a: Seq<char>)
    ensures
        !lex_lt(a, a),
    decreases a.len(),
{
    if a.len() > 0 {
        lemma_lex_irreflexive(a.skip(1));
    }
}

/// The order of strings is transitive.
pub proof fn lemma_lex_transitive(a: Seq<char>, b: Seq<char>, c: Seq<char>)
    requires
        lex_lt(a, b),
        lex_lt(b, c),
    ensures
        lex_lt(a, c),
    decreases a.len(),
{
    if a.len() > 0 && a[0] == b[0] && b[0] == c[0] {
        lemma_lex_transitive(a.skip(1), b.skip(1), c.skip(1));
    }
}

/// Of two different strings one comes first.
pub proof fn lemma_lex_total(a: Seq<char>, b: Seq<char>)
    ensures
        a == b || lex_lt(a, b) || lex_lt(b, a),
    decreases a.len(),
{
    if a.len() > 0 && b.len() > 0 && a[0] == b[0] {
        lemma_lex_total(a.skip(1), b.skip(1));
        if a.skip(1) == b.skip(1) {
            assert(a == seq![a[0]] + a.skip(1));
            assert(b == seq![b[0]] + b.skip(1));
        }
    } else if a.len() == 0 && b.len() == 0 {
        assert(a == b);
    }
}

/// Specifies `String::push`: it appends one character.
pub assume_specification[ String::push ](s: &mut String, c: char)
    ensures
        final(s)@ == old(s)@.push(c),
;

/// Whether `c` is white space.
pub fn space(c: char) -> (r: bool)
    ensures
        r == is_space(c),
{
    let n: u32 = c as u32;
    (0x9 <= n && n <= 0xD) || n == 0x20 || n == 0x85 || n == 0xA0 || n == 0x1680 || (0x2000 <= n
        && n <= 0x200A) || n == 0x2028 || n == 0x2029 || n == 0x202F || n == 0x205F || n == 0x3000
}

/// Whether `c` is a control character.
pub fn control(c: char) -> (r: bool)
    ensures
        r == is_control_char(c),
{
    let n: u32 = c as u32;
    n <= 0x1F || (0x7F <= n && n <= 0x9F)
}

/// Whether `c` is an ASCII digit.
pub fn digit(c: char) -> (r: bool)
    ensures
        r == is_digit(c),
{
    '0' <= c && c <= '9'
}

/// Whether `c` is an ASCII letter or digit.
pub fn alnum(c: char) -> (r: bool)
    ensures
        r == is_alnum(c),
{
    ('0' <= c && c <= '9') || ('a' <= c && c <= 'z') || ('A' <= c && c <= 'Z')
}

/// `c` in lower case where it is an ASCII letter.
pub fn to_lower(c: char) -> (r: char)
    ensures
        r == lower_char(c),
{
    if 'A' <= c && c <= 'Z' {
        (c as u8 + 32) as char
    } else {
        c
    }
}

/// The characters of a string, in order.
pub fn chars_of(s: &str) -> (r: Vec<char>)
    ensures
        r@ == s@,
{
    let mut out: Vec<char> = Vec::new();
    for c in it: s.chars()
        invariant
            out@ == it.seq().take(it.index() as int),
            it.seq() == s@,
    {
        out.push(c);
    }
    out
}

/// The string made of the characters `v[from..to]`.
pub fn string_of(v: &Vec<char>, from: usize, to: usize) -> (r: String)
    requires
        from <= to <= v@.len(),
    ensures
        r@ == v@.subrange(from as int, to as int),
{
    let mut out = String::new();
    let mut i: usize = from;
    while i < to
        invariant
            from <= i <= to <= v@.len(),
            out@ == v@.subrange(from as int, i as int),
        decreases to - i,
    {
        out.push(v[i]);
        i = i + 1;
    }
    out
}

/// The string made of all the characters of `v`.
pub fn string_of_all(v: &Vec<char>) -> (r: String)
    ensures
        r@ == v@,
{
    let r = string_of(v, 0, v.len());
    assert(v@.subrange(0, v@.len() as int) == v@);
    r
}

/// Whether two strings hold the same characters.
pub fn same(a: &str, b: &str) -> (r: bool)
    ensures
        r == (a@ == b@),
{
    a.to_owned() == b.to_owned()
}

/// Whether `a` comes before `b`.
pub fn less(a: &str, b: &str) -> (r: bool)
    ensures
        r == lex_lt(a@, b@),
{
    let x = chars_of(a);
    let y = chars_of(b);
    let mut i: usize = 0;
    assert(a@.skip(0) == a@);
    assert(b@.skip(0) == b@);
    while i < x.len() && i < y.len()
        invariant
            x@ == a@,
            y@ == b@,
            i <= x.len(),
            i <= y.len(),
            lex_lt(a@, b@) == lex_lt(a@.skip(i as int), b@.skip(i as int)),
        decreases x.len() - i,
    {
        if x[i] != y[i] {
            return x[i] < y[i];
        }
        assert(a@.skip(i as int).skip(1) == a@.skip(i + 1));
        assert(b@.skip(i as int).skip(1) == b@.skip(i + 1));
        i = i + 1;
    }
    i < y.len()
}

/// Whether `pat` stands in `s` at position `i`.
pub fn matches_at(s: &Vec<char>, pat: &Vec<char>, i: usize) -> (r: bool)
    ensures
        r == occurs_at(s@, pat@, i as int),
{
    if i > s.len() || pat.len() > s.len() - i {
        return false;
    }
    let mut j: usize = 0;
    while j < pat.len()
        invariant
            j <= pat.len(),
            i + pat.len() <= s.len(),
            forall|k: int| 0 <= k < j ==> s@[i + k] == pat@[k],
        decreases pat@.len() - j,
    {
        if s[i + j] != pat[j] {
            assert(s@.subrange(i as int, i + pat@.len())[j as int] != pat@[j as int]);
            return false;
        }
        j = j + 1;
    }
    assert(s@.subrange(i as int, i + pat@.len()) == pat@);
    true
}

/// The first position from `i` on at which `pat` stands in `s`.
pub fn find(s: &Vec<char>, pat: &Vec<char>, i: usize) -> (r: Option<usize>)
    ensures
        r is None <==> find_from(s@, pat@, i as int) is None,
        r matches Some(p) ==> find_from(s@, pat@, i as int) == Some(p as int),
        r matches Some(p) ==> i <= p && occurs_at(s@, pat@, p as int),
{
    let mut k: usize = i;
    while k <= s.len() && pat.len() <= s.len() - k
        invariant
            i <= k,
            i <= s@.len() ==> k <= s@.len() + 1,
            find_from(s@, pat@, i as int) == find_from(s@, pat@, k as int),
        decreases s@.len() + 1 - k,
    {
        if matches_at(s, pat, k) {
            return Some(k);
        }
        if k == s.len() {
            assert(find_from(s@, pat@, k + 1) is None);
            return None;
        }
        k = k + 1;
    }
    None
}

/// What `find_from` finds is the first occurrence.
pub proof fn lemma_find_from(s: Seq<char>, pat: Seq<char>, i: int)
    requires
        0 <= i,
    ensures
        find_from(s, pat, i) matches Some(p) ==> i <= p && occurs_at(s, pat, p) && forall|k: int|
            i <= k < p ==> !occurs_at(s, pat, k),
        find_from(s, pat, i) is None ==> forall|k: int| i <= k ==> !occurs_at(s, pat, k),
    decreases s.len() + 1 - i,
{
    if i + pat.len() <= s.len() && !occurs_at(s, pat, i) {
        lemma_find_from(s, pat, i + 1);
    }
}

/// Whether `pat` stands anywhere in `s`.
pub fn contains(s: &str, pat: &str) -> (r: bool)
    ensures
        r == has(s@, pat@),
{
    let v = chars_of(s);
    let p = chars_of(pat);
    proof {
        lemma_find_from(s@, pat@, 0);
    }
    match find(&v, &p, 0) {
        Some(_) => true,
        None => {
            assert forall|i: int| !occurs_at(s@, pat@, i) by {}
            false
        },
    }
}

/// Whether `s` begins with `pat`.
pub fn starts_with(s: &str, pat: &str) -> (r: bool)
    ensures
        r == begins(s@, pat@),
{
    matches_at(&chars_of(s), &chars_of(pat), 0)
}

/// Whether `s` ends with `pat`.
pub fn ends_with(s: &str, pat: &str) -> (r: bool)
    ensures
        r == ends(s@, pat@),
{
    let v = chars_of(s);
    let p = chars_of(pat);
    if p.len() > v.len() {
        false
    } else {
        matches_at(&v, &p, v.len() - p.len())
    }
}

/// What follows the prefix `pat` of `s`, where `s` begins with it.
pub fn strip_prefix(s: &str, pat: &str) -> (r: Option<String>)
    ensures
        r is Some <==> begins(s@, pat@),
        r matches Some(t) ==> t@ == s@.skip(pat@.len() as int),
{
    let v = chars_of(s);
    let p = chars_of(pat);
    if matches_at(&v, &p, 0) {
        Some(string_of(&v, p.len(), v.len()))
    } else {
        None
    }
}

/// What precedes and follows the first `pat` in `s`.
pub fn split_once(s: &str, pat: &str) -> (r: Option<(String, String)>)
    ensures
        r is None <==> find_from(s@, pat@, 0) is None,
        r matches Some(t) ==> (find_from(s@, pat@, 0) matches Some(i) && t.0@ == s@.take(i) && t.1@
            == s@.skip(i + pat@.len())),
{
    let v = chars_of(s);
    let p = chars_of(pat);
    match find(&v, &p, 0) {
        Some(i) => {
            assert(i + p.len() <= v.len());
            Some((string_of(&v, 0, i), string_of(&v, i + p.len(), v.len())))
        },
        None => None,
    }
}

/// `split` of a text that holds no separator.
pub proof fn lemma_split_none(s: Seq<char>, c: char)
    requires
        forall|k: int| 0 <= k < s.len() ==> s[k] != c,
    ensures
        split(s, c) == seq![s],
    decreases s.len(),
{
    if s.len() > 0 {
        assert forall|k: int| 0 <= k < s.skip(1).len() implies s.skip(1)[k] != c by {
            assert(s.skip(1)[k] == s[k + 1]);
        }
        lemma_split_none(s.skip(1), c);
        assert(seq![s[0]] + s.skip(1) == s);
        assert(seq![s.skip(1)].update(0, s) == seq![s]);
    }
}

/// `split` always gives at least one piece.
pub proof fn lemma_split_len(s: Seq<char>, c: char)
    ensures
        split(s, c).len() > 0,
    decreases s.len(),
{
    if s.len() > 0 {
        lemma_split_len(s.skip(1), c);
    }
}

/// `split` of a text whose first separator stands at `i`.
pub proof fn lemma_split_at(s: Seq<char>, c: char, i: int)
    requires
        0 <= i < s.len(),
        s[i] == c,
        forall|k: int| 0 <= k < i ==> s[k] != c,
    ensures
        split(s, c) == seq![s.take(i)] + split(s.skip(i + 1), c),
    decreases i,
{
    if i == 0 {
        assert(s.take(0) == Seq::<char>::empty());
    } else {
        let t = s.skip(1);
        assert forall|k: int| 0 <= k < i - 1 implies t[k] != c by {
            assert(t[k] == s[k + 1]);
        }
        lemma_split_at(t, c, i - 1);
        assert(t.skip(i) == s.skip(i + 1));
        assert(seq![s[0]] + t.take(i - 1) == s.take(i));
        let tail = split(s.skip(i + 1), c);
        assert((seq![t.take(i - 1)] + tail).update(0, s.take(i)) == seq![s.take(i)] + tail);
    }
}

/// The pieces of `s` between the separators `c`.
pub fn split_on(s: &str, c: char) -> (r: Vec<String>)
    ensures
        texts(r@) == split(s@, c),
{
    let v = chars_of(s);
    let mut out: Vec<String> = Vec::new();
    let mut start: usize = 0;
    let mut i: usize = 0;
    assert(s@.skip(0) == s@);
    assert(texts(out@) + split(s@.skip(0), c) == split(s@, c));
    while i < v.len()
        invariant
            v@ == s@,
            start <= i <= v.len(),
            forall|k: int| start <= k < i ==> v@[k] != c,
            texts(out@) + split(s@.skip(start as int), c) == split(s@, c),
        decreases v.len() - i,
    {
        if v[i] == c {
            let piece = string_of(&v, start, i);
            let ghost rest = s@.skip(start as int);
            proof {
                assert forall|k: int| 0 <= k < i - start implies rest[k] != c by {
                    assert(rest[k] == v@[k + start]);
                }
                lemma_split_at(rest, c, i - start);
                assert(rest.skip(i - start + 1) == s@.skip(i + 1));
                assert(rest.take(i - start) == v@.subrange(start as int, i as int));
            }
            let ghost before = texts(out@);
            out.push(piece);
            proof {
                assert(texts(out@) == before.push(piece@));
                assert(before + (seq![piece@] + split(s@.skip(i + 1), c)) == texts(out@) + split(
                    s@.skip(i + 1),
                    c,
                ));
            }
            start = i + 1;
        }
        i = i + 1;
    }
    let piece = string_of(&v, start, v.len());
    proof {
        let rest = s@.skip(start as int);
        assert forall|k: int| 0 <= k < rest.len() implies rest[k] != c by {
            assert(rest[k] == v@[k + start]);
        }
        lemma_split_none(rest, c);
        assert(rest == piece@);
    }
    let ghost before = texts(out@);
    out.push(piece);
    assert(texts(out@) == before.push(piece@));
    assert(before.push(piece@) == before + seq![piece@]);
    out
}

/// Where the first line feed of `s` stands.
pub proof fn lemma_index_of_char(s: Seq<char>, c: char, i: int)
    requires
        0 <= i <= s.len(),
        forall|k: int| 0 <= k < i ==> s[k] != c,
        i < s.len() ==> s[i] == c,
    ensures
        index_of_char(s, c) == if i < s.len() {
            Some(i)
        } else {
            None
        },
    decreases s.len(),
{
    if s.len() > 0 && s[0] != c {
        let t = s.skip(1);
        assert forall|k: int| 0 <= k < i - 1 implies t[k] != c by {
            assert(t[k] == s[k + 1]);
        }
        lemma_index_of_char(t, c, i - 1);
    }
}

/// The lines of `s`.
pub fn lines(s: &str) -> (r: Vec<String>)
    ensures
        texts(r@) == line_seq(s@),
{
    let v = chars_of(s);
    let mut out: Vec<String> = Vec::new();
    let mut start: usize = 0;
    let mut i: usize = 0;
    assert(s@.skip(0) == s@);
    assert(texts(out@) + line_seq(s@.skip(0)) == line_seq(s@));
    while i < v.len()
        invariant
            v@ == s@,
            start <= i <= v.len(),
            forall|k: int| start <= k < i ==> v@[k] != '\n',
            texts(out@) + line_seq(s@.skip(start as int)) == line_seq(s@),
        decreases v.len() - i,
    {
        if v[i] == '\n' {
            let end: usize = if i > start && v[i - 1] == '\r' {
                i - 1
            } else {
                i
            };
            let piece = string_of(&v, start, end);
            let ghost rest = s@.skip(start as int);
            proof {
                assert forall|k: int| 0 <= k < i - start implies rest[k] != '\n' by {
                    assert(rest[k] == v@[k + start]);
                }
                lemma_index_of_char(rest, '\n', i - start);
                assert(rest.skip(i - start + 1) == s@.skip(i + 1));
                let whole = rest.take(i - start);
                assert(whole.len() > 0 ==> whole.last() == v@[i - 1]);
                assert(strip_cr(whole) == piece@);
            }
            let ghost before = texts(out@);
            out.push(piece);
            proof {
                assert(texts(out@) == before.push(piece@));
                assert(before + (seq![piece@] + line_seq(s@.skip(i + 1))) == texts(out@) + line_seq(
                    s@.skip(i + 1),
                ));
            }
            start = i + 1;
        }
        i = i + 1;
    }
    let ghost rest = s@.skip(start as int);
    proof {
        assert forall|k: int| 0 <= k < rest.len() implies rest[k] != '\n' by {
            assert(rest[k] == v@[k + start]);
        }
        lemma_index_of_char(rest, '\n', rest.len() as int);
    }
    if start < v.len() {
        let piece = string_of(&v, start, v.len());
        let ghost before = texts(out@);
        out.push(piece);
        assert(piece@ == rest);
        assert(texts(out@) == before.push(piece@));
        assert(before.push(piece@) == before + seq![piece@]);
    } else {
        assert(texts(out@) + Seq::<Seq<char>>::empty() == texts(out@));
    }
    out
}

/// A predicate on characters that can be tested.
pub trait CharTest {
    /// What the predicate admits.
    spec fn admits(&self, c: char) -> bool;

    /// Tests one character.
    fn test(&self, c: char) -> (r: bool)
        ensures
            r == self.admits(c),
    ;
}

/// White space.
pub struct Space;

impl CharTest for Space {
    open spec fn admits(&self, c: char) -> bool {
        is_space(c)
    }

    fn test(&self, c: char) -> (r: bool) {
        space(c)
    }
}

/// Any of the listed characters.
pub struct OneOf {
    /// The characters.
    pub chars: Vec<char>,
}

impl CharTest for OneOf {
    open spec fn admits(&self, c: char) -> bool {
        self.chars@.contains(c)
    }

    fn test(&self, c: char) -> (r: bool) {
        let mut i: usize = 0;
        while i < self.chars.len()
            invariant
                i <= self.chars.len(),
                forall|k: int| 0 <= k < i ==> self.chars@[k] != c,
            decreases self.chars.len() - i,
        {
            if self.chars[i] == c {
                return true;
            }
            i = i + 1;
        }
        false
    }
}

/// The first index from `from` on that `t` does not admit.
fn skip_admitted<T: CharTest>(v: &Vec<char>, from: usize, t: &T) -> (r: usize)
    requires
        from <= v@.len(),
    ensures
        from <= r <= v@.len(),
        drop_while(v@.skip(from as int), |c: char| t.admits(c)) == v@.skip(r as int),
        forall|k: int| from <= k < r ==> t.admits(v@[k]),
        r < v@.len() ==> !t.admits(v@[r as int]),
{
    let mut i: usize = from;
    let ghost p = |c: char| t.admits(c);
    while i < v.len() && t.test(v[i])
        invariant
            from <= i <= v.len(),
            p == (|c: char| t.admits(c)),
            forall|k: int| from <= k < i ==> t.admits(v@[k]),
            drop_while(v@.skip(from as int), p) == drop_while(v@.skip(i as int), p),
        decreases v.len() - i,
    {
        assert(v@.skip(i as int).skip(1) == v@.skip(i + 1));
        assert(p(v@.skip(i as int)[0]));
        i = i + 1;
    }
    assert(i < v.len() ==> !p(v@.skip(i as int)[0]));
    i
}

/// The end of what is left of `v[from..]` once the trailing characters that
/// `t` admits are gone.
fn cut_admitted<T: CharTest>(v: &Vec<char>, from: usize, t: &T) -> (r: usize)
    requires
        from <= v@.len(),
    ensures
        from <= r <= v@.len(),
        drop_end(v@.skip(from as int), |c: char| t.admits(c)) == v@.subrange(from as int, r as int),
        forall|k: int| r <= k < v@.len() ==> t.admits(v@[k]),
        r > from ==> !t.admits(v@[r - 1]),
{
    let mut i: usize = v.len();
    let ghost p = |c: char| t.admits(c);
    assert(v@.subrange(from as int, i as int) == v@.skip(from as int));
    while i > from && t.test(v[i - 1])
        invariant
            from <= i <= v.len(),
            p == (|c: char| t.admits(c)),
            forall|k: int| i <= k < v@.len() ==> t.admits(v@[k]),
            drop_end(v@.skip(from as int), p) == drop_end(v@.subrange(from as int, i as int), p),
        decreases i,
    {
        assert(v@.subrange(from as int, i as int).drop_last() == v@.subrange(from as int, i - 1));
        assert(p(v@.subrange(from as int, i as int).last()));
        i = i - 1;
    }
    assert(i > from ==> !p(v@.subrange(from as int, i as int).last()));
    i
}

/// `s` without the leading characters that `t` admits.
pub fn trim_start_by<T: CharTest>(s: &str, t: &T) -> (r: String)
    ensures
        r@ == drop_while(s@, |c: char| t.admits(c)),
{
    let v = chars_of(s);
    let i = skip_admitted(&v, 0, t);
    assert(v@.skip(0) == s@);
    assert(v@.subrange(i as int, v@.len() as int) == v@.skip(i as int));
    string_of(&v, i, v.len())
}

/// `s` without the trailing characters that `t` admits.
pub fn trim_end_by<T: CharTest>(s: &str, t: &T) -> (r: String)
    ensures
        r@ == drop_end(s@, |c: char| t.admits(c)),
{
    let v = chars_of(s);
    let i = cut_admitted(&v, 0, t);
    assert(v@.skip(0) == s@);
    string_of(&v, 0, i)
}

/// `s` without the leading and trailing characters that `t` admits.
pub fn trim_by<T: CharTest>(s: &str, t: &T) -> (r: String)
    ensures
        r@ == drop_end(drop_while(s@, |c: char| t.admits(c)), |c: char| t.admits(c)),
{
    let v = chars_of(s);
    let i = skip_admitted(&v, 0, t);
    let j = cut_admitted(&v, i, t);
    assert(v@.skip(0) == s@);
    string_of(&v, i, j)
}

/// `s` without the characters `c` at its end.
pub open spec fn trim_end_char(s: Seq<char>, c: char) -> Seq<char> {
    drop_end(s, |x: char| seq![c].contains(x))
}

/// `s` without the characters `c` at both ends.
pub open spec fn trim_char(s: Seq<char>, c: char) -> Seq<char> {
    trim_set(s, seq![c])
}

/// `s` without the characters of `set` at both ends.
pub open spec fn trim_set(s: Seq<char>, set: Seq<char>) -> Seq<char> {
    drop_end(drop_while(s, |x: char| set.contains(x)), |x: char| set.contains(x))
}

/// `s` without the characters of `set` at its start.
pub open spec fn trim_start_set(s: Seq<char>, set: Seq<char>) -> Seq<char> {
    drop_while(s, |x: char| set.contains(x))
}

/// `s` without the characters `c` at its end.
pub fn trimmed_end_char(s: &str, c: char) -> (r: String)
    ensures
        r@ == trim_end_char(s@, c),
{
    let any = OneOf { chars: vec![c] };
    assert(any.chars@ =~= seq![c]);
    assert((|x: char| any.admits(x)) =~= (|x: char| seq![c].contains(x)));
    trim_end_by(s, &any)
}

/// `s` without the characters `c` at both ends.
pub fn trimmed_char(s: &str, c: char) -> (r: String)
    ensures
        r@ == trim_char(s@, c),
{
    let any = OneOf { chars: vec![c] };
    let ghost set = seq![c];
    assert(any.chars@ =~= set);
    assert((|x: char| any.admits(x)) =~= (|x: char| set.contains(x)));
    trim_by(s, &any)
}

/// `s` without the characters of `set` at both ends.
pub fn trimmed_set(s: &str, set: &str) -> (r: String)
    ensures
        r@ == trim_set(s@, set@),
{
    let any = OneOf { chars: chars_of(set) };
    assert((|x: char| any.admits(x)) =~= (|x: char| set@.contains(x)));
    trim_by(s, &any)
}

/// `s` without the characters of `set` at its start.
pub fn trimmed_start_set(s: &str, set: &str) -> (r: String)
    ensures
        r@ == trim_start_set(s@, set@),
{
    let any = OneOf { chars: chars_of(set) };
    assert((|x: char| any.admits(x)) =~= (|x: char| set@.contains(x)));
    trim_start_by(s, &any)
}

/// `s` without white space at both ends.
pub fn trimmed(s: &str) -> (r: String)
    ensures
        r@ == trim(s@),
{
    let r = trim_by(s, &Space);
    assert((|c: char| Space.admits(c)) =~= (|c: char| is_space(c)));
    r
}

/// `s` without white space at its end.
pub fn trimmed_end(s: &str) -> (r: String)
    ensures
        r@ == trim_end(s@),
{
    let r = trim_end_by(s, &Space);
    assert((|c: char| Space.admits(c)) =~= (|c: char| is_space(c)));
    r
}

/// Whether `s` is empty or white space only.
pub fn blank(s: &str) -> (r: bool)
    ensures
        r == (trim(s@).len() == 0),
{
    let t = trimmed(s);
    let n = chars_of(t.as_str()).len();
    n == 0
}

/// The number of characters of `s`.
pub fn char_count(s: &str) -> (r: usize)
    ensures
        r == s@.len(),
{
    chars_of(s).len()
}

/// `s` with every occurrence of `pat` replaced by `by`.
pub fn replace_all(s: &str, pat: &str, by: &str) -> (r: String)
    requires
        pat@.len() > 0,
    ensures
        r@ == replace(s@, pat@, by@),
{
    let v = chars_of(s);
    let p = chars_of(pat);
    let mut out = String::new();
    let mut i: usize = 0;
    assert(s@.skip(0) == s@);
    assert(out@ + replace(s@.skip(0), pat@, by@) == replace(s@, pat@, by@));
    while i < v.len()
        invariant
            v@ == s@,
            p@ == pat@,
            pat@.len() > 0,
            i <= v.len(),
            out@ + replace(s@.skip(i as int), pat@, by@) == replace(s@, pat@, by@),
        decreases v.len() - i,
    {
        let ghost rest = s@.skip(i as int);
        let ghost before = out@;
        if matches_at(&v, &p, i) {
            assert(i + p.len() <= v.len());
            out.append(by);
            proof {
                assert(rest.subrange(0, pat@.len() as int) == s@.subrange(i as int, i + pat@.len()));
                assert(rest.skip(pat@.len() as int) == s@.skip(i + pat@.len()));
                assert(before + (by@ + replace(s@.skip(i + pat@.len()), pat@, by@)) == out@
                    + replace(s@.skip(i + pat@.len()), pat@, by@));
            }
            i = i + p.len();
        } else {
            out.push(v[i]);
            proof {
                assert(occurs_at(rest, pat@, 0) ==> rest.subrange(0, pat@.len() as int)
                    == s@.subrange(i as int, i + pat@.len()));
                assert(rest.skip(1) == s@.skip(i + 1));
                if rest.len() < pat@.len() {
                    assert(replace(rest.skip(1), pat@, by@) == rest.skip(1));
                    assert(seq![rest[0]] + rest.skip(1) == rest);
                }
                assert(before + (seq![rest[0]] + replace(s@.skip(i + 1), pat@, by@)) == out@
                    + replace(s@.skip(i + 1), pat@, by@));
            }
            i = i + 1;
        }
    }
    assert(s@.skip(i as int) == Seq::<char>::empty());
    assert(out@ + Seq::<char>::empty() == out@);
    out
}

/// The strings of `parts` with `sep` between them.
pub fn join_with(parts: &Vec<String>, sep: &str) -> (r: String)
    ensures
        r@ == join(texts(parts@), sep@),
{
    let mut out = String::new();
    let mut i: usize = 0;
    assert(texts(parts@).take(0) == Seq::<Seq<char>>::empty());
    while i < parts.len()
        invariant
            i <= parts.len(),
            out@ == join(texts(parts@).take(i as int), sep@),
        decreases parts.len() - i,
    {
        let ghost done = texts(parts@).take(i + 1);
        assert(done.drop_last() == texts(parts@).take(i as int));
        if i > 0 {
            out.append(sep);
        }
        out.append(parts[i].as_str());
        assert(done.last() == parts@[i as int]@);
        proof {
            if i == 0 {
                assert(out@ == done[0]);
            }
        }
        i = i + 1;
    }
    assert(texts(parts@).take(i as int) == texts(parts@));
    out
}

/// The decimal notation of `n`.
pub fn decimal_of(n: u64) -> (r: String)
    ensures
        r@ == decimal(n as nat),
    decreases n,
{
    if n < 10 {
        let mut out = String::new();
        let d: u8 = (n as u8) + 48;
        out.push(d as char);
        assert(d as char == digit_char(n as int));
        out
    } else {
        let mut out = decimal_of(n / 10);
        let d: u8 = ((n % 10) as u8) + 48;
        out.push(d as char);
        assert(d as char == digit_char((n % 10) as int));
        out
    }
}

/// The decimal notation of `n`, filled up with zeros to `width` characters.
pub fn decimal_padded(n: u64, width: usize) -> (r: String)
    ensures
        r@ == zero_padded(decimal(n as nat), width as int),
{
    let digits = decimal_of(n);
    let have: usize = char_count(digits.as_str());
    let mut out = String::new();
    let missing: usize = if have < width {
        width - have
    } else {
        0
    };
    let mut i: usize = 0;
    while i < missing
        invariant
            i <= missing,
            out@ == copies('0', i as int),
        decreases missing - i,
    {
        out.push('0');
        assert(copies('0', i + 1) == copies('0', i as int).push('0'));
        i = i + 1;
    }
    assert(copies('0', missing as int) == copies('0', width - have));
    out.append(digits.as_str());
    out
}

/// `s` in ASCII lower case.
pub fn lower(s: &str) -> (r: String)
    ensures
        r@ == ascii_lower(s@),
{
    let v = chars_of(s);
    let mut out = String::new();
    let mut i: usize = 0;
    while i < v.len()
        invariant
            v@ == s@,
            i <= v.len(),
            out@ == ascii_lower(s@.take(i as int)),
        decreases v.len() - i,
    {
        out.push(to_lower(v[i]));
        assert(ascii_lower(s@.take(i + 1)) == ascii_lower(s@.take(i as int)).push(
            lower_char(s@[i as int]),
        ));
        i = i + 1;
    }
    assert(s@.take(s@.len() as int) == s@);
    out
}

/// `text` cut to `max` characters, the last of them an ellipsis where
/// something was left out.
pub fn truncate_chars(text: &str, max: usize) -> (r: String)
    ensures
        r@ == cut_text(text@, max as int),
{
    let v = chars_of(text);
    if v.len() <= max {
        return string_of_all(&v);
    }
    let keep: usize = if max > 0 {
        max - 1
    } else {
        0
    };
    let mut out = string_of(&v, 0, keep);
    out.push('…');
    out
}

/// The first `max` characters of `text`, followed by an ellipsis where
/// something was left out.
pub fn clip(text: &str, max: usize) -> (r: String)
    ensures
        r@ == clip_text(text@, max as int),
{
    let v = chars_of(text);
    if v.len() <= max {
        return string_of_all(&v);
    }
    let mut out = string_of(&v, 0, max);
    out.push('…');
    out
}

/// A copy of a list of strings.
pub fn copy_strings(v: &Vec<String>) -> (r: Vec<String>)
    ensures
        texts(r@) == texts(v@),
{
    let mut out: Vec<String> = Vec::new();
    let mut i: usize = 0;
    while i < v.len()
        invariant
            i <= v.len(),
            texts(out@) == texts(v@).take(i as int),
        decreases v.len() - i,
    {
        let ghost before = texts(out@);
        let s = v[i].clone();
        out.push(s);
        assert(texts(out@) == before.push(s@));
        assert(texts(v@).take(i + 1) == texts(v@).take(i as int).push(v@[i as int]@));
        i = i + 1;
    }
    assert(texts(v@).take(i as int) == texts(v@));
    out
}

/// A copy of an optional string.
pub fn copy_opt(o: &Option<String>) -> (r: Option<String>)
    ensures
        opt_text(r) == opt_text(*o),
{
    match o {
        Some(s) => Some(s.clone()),
        None => None,
    }
}

/// Whether one of the strings of `v` holds exactly the characters of `s`.
pub fn list_has(v: &Vec<String>, s: &str) -> (r: bool)
    ensures
        r == texts(v@).contains(s@),
{
    let mut i: usize = 0;
    while i < v.len()
        invariant
            i <= v.len(),
            forall|k: int| 0 <= k < i ==> texts(v@)[k] != s@,
        decreases v.len() - i,
    {
        if same(v[i].as_str(), s) {
            assert(texts(v@)[i as int] == s@);
            return true;
        }
        i = i + 1;
    }
    false
}

/// The lower-case hexadecimal digit for `d`.
pub open spec fn hex_char(d: int) -> char {
    if d < 10 {
        (d + 48) as char
    } else {
        (d + 87) as char
    }
}

/// The hexadecimal notation of a natural number.
pub open spec fn hex(n: nat) -> Seq<char>
    decreases n,
{
    if n < 16 {
        seq![hex_char(n as int)]
    } else {
        hex(n / 16).push(hex_char((n % 16) as int))
    }
}

/// The hexadecimal notation of `n`.
pub fn hex_of(n: u128) -> (r: String)
    ensures
        r@ == hex(n as nat),
    decreases n,
{
    let d: u8 = (n % 16) as u8;
    let c: char = if d < 10 {
        (d + 48) as char
    } else {
        (d + 87) as char
    };
    assert(c == hex_char((n % 16) as int));
    if n < 16 {
        let mut out = String::new();
        out.push(c);
        assert(out@ =~= seq![c]);
        out
    } else {
        let mut out = hex_of(n / 16);
        out.push(c);
        out
    }
}

/// Hexadecimal notation is made of digits and the letters `a` to `f`.
pub proof fn lemma_hex_chars(n: nat)
    ensures
        hex(n).len() > 0,
        forall|i: int| 0 <= i < hex(n).len() ==> is_alnum(#[trigger] hex(n)[i]),
    decreases n,
{
    if n >= 16 {
        lemma_hex_chars(n / 16);
    }
}

/// Two numbers have different notations.
pub proof fn lemma_hex_differs(m: nat, n: nat)
    requires
        m != n,
    ensures
        hex(m) != hex(n),
    decreases m,
{
    if hex(m) == hex(n) {
        assert(hex(m).last() == hex_char((m % 16) as int));
        assert(hex(n).last() == hex_char((n % 16) as int));
        assert(m % 16 == n % 16);
        if m >= 16 && n >= 16 {
            assert(hex(m).drop_last() =~= hex(m / 16));
            assert(hex(n).drop_last() =~= hex(n / 16));
            lemma_hex_differs(m / 16, n / 16);
        } else if m >= 16 {
            lemma_hex_chars(m / 16);
        } else if n >= 16 {
            lemma_hex_chars(n / 16);
        }
    }
}

/// The numbers of at most `k` hexadecimal digits are those below this one.
spec fn hex_bound(k: nat) -> nat
    decreases k,
{
    if k == 0 {
        1
    } else {
        16 * hex_bound((k - 1) as nat)
    }
}

proof fn lemma_hex_len(n: nat, k: nat)
    requires
        k > 0,
        n < hex_bound(k),
    ensures
        hex(n).len() <= k,
    decreases k,
{
    if n >= 16 {
        reveal_with_fuel(hex_bound, 2);
        lemma_hex_len(n / 16, (k - 1) as nat);
    }
}

/// A number of 128 bits has at most 32 digits.
pub proof fn lemma_hex_len_128(n: nat)
    requires
        n <= u128::MAX,
    ensures
        hex(n).len() <= 32,
{
    reveal_with_fuel(hex_bound, 33);
    lemma_hex_len(n, 32);
}

/// A number of 64 bits has at most 16 digits.
pub proof fn lemma_hex_len_64(n: nat)
    requires
        n <= u64::MAX,
    ensures
        hex(n).len() <= 16,
{
    reveal_with_fuel(hex_bound, 17);
    lemma_hex_len(n, 16);
}

/// What the `{:?}` form of a string is: quoted, with escapes.
pub uninterp spec fn quoted(s: Seq<char>) -> Seq<char>;

/// Formats a string with `{:?}`.
#[verifier::external_body]
pub(crate) fn quote(s: &str) -> (r: String)
    ensures
        r@ == quoted(s@),
{
    format!("{s:?}")
}

/// The length of a text in UTF-8.
pub open spec fn byte_len(s: Seq<char>) -> nat {
    vstd::utf8::encode_utf8(s).len()
}

/// The length of `s` in bytes.
pub fn byte_count(s: &str) -> (r: usize)
    ensures
        r == byte_len(s@),
{
    s.as_bytes().len()
}

/// Whether `s` holds no character.
pub fn empty(s: &str) -> (r: bool)
    ensures
        r == (s@.len() == 0),
{
    s.is_empty()
}

/// Whether every character of `s` is a digit.
pub open spec fn all_digits(s: Seq<char>) -> bool {
    forall|i: int| 0 <= i < s.len() ==> is_digit(#[trigger] s[i])
}

/// The number that digits stand for.
pub open spec fn digits_value(s: Seq<char>) -> nat
    decreases s.len(),
{
    if s.len() == 0 {
        0
    } else {
        (digits_value(s.drop_last()) * 10 + (s.last() as nat - 48)) as nat
    }
}

/// The digits of a number in decimal notation: an optional plus sign may stand
/// before them.
pub open spec fn unsigned_digits(s: Seq<char>) -> Seq<char> {
    if s.len() > 0 && s[0] == '+' {
        s.skip(1)
    } else {
        s
    }
}

/// The 32-bit unsigned number that a text stands for.
pub open spec fn u32_value(s: Seq<char>) -> Option<u32> {
    let d = unsigned_digits(s);
    if d.len() > 0 && all_digits(d) && digits_value(d) <= u32::MAX {
        Some(digits_value(d) as u32)
    } else {
        None
    }
}

/// A longer number is no smaller.
proof fn lemma_digits_grow(s: Seq<char>, n: int)
    requires
        0 <= n <= s.len(),
        all_digits(s),
    ensures
        digits_value(s.take(n)) <= digits_value(s),
    decreases s.len() - n,
{
    if n < s.len() {
        assert(s.take(n + 1).drop_last() =~= s.take(n));
        assert(is_digit(s[n]));
        assert(s.take(n + 1).last() == s[n]);
        lemma_digits_grow(s, n + 1);
    } else {
        assert(s.take(n) =~= s);
    }
}

/// The 32-bit unsigned number that a text stands for.
pub fn parse_u32(s: &str) -> (r: Option<u32>)
    ensures
        r == u32_value(s@),
{
    let v = chars_of(s);
    let start: usize = if v.len() > 0 && v[0] == '+' {
        1
    } else {
        0
    };
    let ghost d = unsigned_digits(s@);
    assert(d =~= s@.skip(start as int));
    if v.len() == start {
        return None;
    }
    let mut value: u32 = 0;
    let mut i: usize = start;
    assert(d.take(0) =~= seq![]);
    while i < v.len()
        invariant
            v@ == s@,
            start <= i <= v.len(),
            d == s@.skip(start as int),
            d == unsigned_digits(s@),
            forall|k: int| 0 <= k < i - start ==> is_digit(#[trigger] d[k]),
            value == digits_value(d.take(i - start)),
        decreases v.len() - i,
    {
        let c = v[i];
        let ghost n = i - start;
        assert(d[n] == c);
        if !digit(c) {
            return None;
        }
        let x: u32 = (c as u32) - 48;
        assert(d.take(n + 1).drop_last() =~= d.take(n));
        assert(d.take(n + 1).last() == c);
        let wide: u64 = (value as u64) * 10 + x as u64;
        assert(wide == digits_value(d.take(n + 1)));
        if wide > u32::MAX as u64 {
            proof {
                if all_digits(d) {
                    lemma_digits_grow(d, n + 1);
                }
            }
            return None;
        }
        value = wide as u32;
        i = i + 1;
    }
    assert(d.take(d.len() as int) =~= d);
    Some(value)
}

/// A text that neither begins nor ends with white space is not trimmed.
pub proof fn lemma_trim_solid(s: Seq<char>)
    requires
        s.len() > 0 ==> !is_space(s[0]) && !is_space(s.last()),
    ensures
        trim(s) == s,
        trim_start(s) == s,
        trim_end(s) == s,
{
}

} // verus!
