//! What holds of every text: what is taken apart can be put together again, what
//! is written as a number reads as that number, and what is cut says so.

use vstd::prelude::*;

use crate::text::{
    all_digits, ascii_lower, clip_text, cut_text, decimal, digits_value, drop_end, drop_while,
    is_space, join, lex_lt, line_seq, occurs_at, replace, split, trim, trim_start, u32_value,
    zero_padded,
};
use crate::time::{civil, date_text, rfc3339, two};

verus! {

/// Whether every character of a text is admitted.
pub open spec fn made_of(s: Seq<char>, p: spec_fn(char) -> bool) -> bool {
    forall|i: int| 0 <= i < s.len() ==> p(#[trigger] s[i])
}

/// What is dropped from the start is what is admitted.
proof fn lemma_dropped_start(s: Seq<char>, p: spec_fn(char) -> bool)
    ensures
        drop_while(s, p).len() <= s.len(),
        s.skip(s.len() - drop_while(s, p).len()) == drop_while(s, p),
        made_of(s.take(s.len() - drop_while(s, p).len()), p),
        drop_while(s, p).len() > 0 ==> !p(drop_while(s, p)[0]),
    decreases s.len(),
{
    let kept = drop_while(s, p);
    if s.len() > 0 && p(s[0]) {
        let rest = s.skip(1);
        lemma_dropped_start(rest, p);
        assert(s.skip(s.len() - kept.len()) =~= rest.skip(rest.len() - kept.len()));
        let head = s.take(s.len() - kept.len());
        let less = rest.take(rest.len() - kept.len());
        assert forall|i: int| 0 <= i < head.len() implies p(#[trigger] head[i]) by {
            if i > 0 {
                assert(head[i] == less[i - 1]);
            }
        }
    } else {
        assert(s.skip(0) =~= s);
    }
}

/// What is dropped from the end is what is admitted.
proof fn lemma_dropped_end(s: Seq<char>, p: spec_fn(char) -> bool)
    ensures
        drop_end(s, p).len() <= s.len(),
        s.take(drop_end(s, p).len() as int) == drop_end(s, p),
        made_of(s.skip(drop_end(s, p).len() as int), p),
        drop_end(s, p).len() > 0 ==> !p(drop_end(s, p).last()),
    decreases s.len(),
{
    let kept = drop_end(s, p);
    let n = kept.len() as int;
    if s.len() > 0 && p(s.last()) {
        let rest = s.drop_last();
        lemma_dropped_end(rest, p);
        assert(s.take(n) =~= rest.take(n));
        let tail = s.skip(n);
        let less = rest.skip(n);
        assert forall|i: int| 0 <= i < tail.len() implies p(#[trigger] tail[i]) by {
            if i < less.len() {
                assert(tail[i] == less[i]);
            } else {
                assert(tail[i] == s.last());
            }
        }
    } else {
        assert(s.take(n) =~= s);
    }
}

/// Trimming takes away the white space around a text, all of it, and nothing
/// else: the text is what is left, with nothing but white space before and
/// behind it.
pub proof fn only_white_space_is_trimmed(s: Seq<char>)
    ensures
        exists|i: int| #[trigger]
            stands_alone(s, trim(s), i),
        trim(s).len() > 0 ==> !is_space(trim(s)[0]) && !is_space(trim(s).last()),
{
    let p = |c: char| is_space(c);
    let a = trim_start(s);
    let t = trim(s);
    lemma_dropped_start(s, p);
    lemma_dropped_end(a, p);
    let i = s.len() - a.len();
    assert(s.subrange(i, i + t.len()) =~= t) by {
        assert(a.take(t.len() as int) =~= t);
    }
    assert(s.skip(i + t.len()) =~= a.skip(t.len() as int));
    assert(stands_alone(s, t, i));
    if t.len() > 0 {
        assert(t[0] == a[0]);
    }
}

/// Whether a part stands in a text at a place, with nothing but white space
/// around it.
pub open spec fn stands_alone(s: Seq<char>, part: Seq<char>, i: int) -> bool {
    &&& occurs_at(s, part, i)
    &&& made_of(s.take(i), |c: char| is_space(c))
    &&& made_of(s.skip(i + part.len()), |c: char| is_space(c))
}

/// Joined pieces, the first of them apart.
proof fn lemma_join_first(x: Seq<char>, rest: Seq<Seq<char>>, sep: Seq<char>)
    requires
        rest.len() > 0,
    ensures
        join(seq![x] + rest, sep) == x + sep + join(rest, sep),
    decreases rest.len(),
{
    let all = seq![x] + rest;
    assert(all.drop_last() =~= seq![x] + rest.drop_last());
    if rest.len() == 1 {
        assert(all.drop_last() =~= seq![x]);
        assert(join(all.drop_last(), sep) == x);
    } else {
        lemma_join_first(x, rest.drop_last(), sep);
        assert(join(all, sep) =~= x + sep + join(rest, sep));
    }
}

/// Joining goes piece by piece: two lists are joined like one.
pub proof fn lists_are_joined_like_one(a: Seq<Seq<char>>, b: Seq<Seq<char>>, sep: Seq<char>)
    requires
        a.len() > 0,
        b.len() > 0,
    ensures
        join(a + b, sep) == join(a, sep) + sep + join(b, sep),
        join(seq![a[0]], sep) == a[0],
    decreases b.len(),
{
    assert((a + b).drop_last() =~= a + b.drop_last());
    if b.len() == 1 {
        assert((a + b).drop_last() =~= a);
    } else {
        lists_are_joined_like_one(a, b.drop_last(), sep);
        assert(join(a + b, sep) =~= join(a, sep) + sep + join(b, sep));
    }
}

/// A text is what its pieces are when they are joined again, and no piece holds
/// the separator.
pub proof fn pieces_make_up_the_text(s: Seq<char>, c: char)
    ensures
        join(split(s, c), seq![c]) == s,
        split(s, c).len() > 0,
        forall|i: int|
            0 <= i < split(s, c).len() ==> !(#[trigger] split(s, c)[i]).contains(c),
    decreases s.len(),
{
    let parts = split(s, c);
    let sep = seq![c];
    if s.len() == 0 {
        assert(join(parts, sep) =~= s);
    } else {
        let rest = s.skip(1);
        let more = split(rest, c);
        pieces_make_up_the_text(rest, c);
        if s[0] == c {
            lemma_join_first(Seq::<char>::empty(), more, sep);
            assert(Seq::<char>::empty() + sep + rest =~= s);
            assert forall|i: int| 0 <= i < parts.len() implies !(#[trigger] parts[i]).contains(
                c,
            ) by {
                if i > 0 {
                    assert(parts[i] == more[i - 1]);
                }
            }
        } else {
            let first = seq![s[0]] + more[0];
            if more.len() == 1 {
                assert(parts =~= seq![first]);
                assert(more =~= seq![more[0]]);
                assert(first =~= s);
            } else {
                let tail = more.skip(1);
                assert(parts =~= seq![first] + tail);
                assert(more =~= seq![more[0]] + tail);
                lemma_join_first(first, tail, sep);
                lemma_join_first(more[0], tail, sep);
                assert(first + sep + join(tail, sep) =~= seq![s[0]] + rest);
                assert(seq![s[0]] + rest =~= s);
            }
            assert forall|i: int| 0 <= i < parts.len() implies !(#[trigger] parts[i]).contains(
                c,
            ) by {
                if i == 0 {
                    assert(!more[0].contains(c));
                    if first.contains(c) {
                        let k = choose|k: int| 0 <= k < first.len() && first[k] == c;
                        assert(more[0][k - 1] == c);
                    }
                } else {
                    assert(parts[i] == more[i]);
                }
            }
        }
    }
}

/// A line ends with the first line feed, with or without a carriage return before
/// it, and what follows it is the next line; a text without a line feed is one.
pub proof fn lines_end_with_line_feeds(line: Seq<char>, rest: Seq<char>)
    requires
        !line.contains('\n'),
    ensures
        line_seq(line + seq!['\n'] + rest) == seq![
            if line.len() > 0 && line.last() == '\r' {
                line.drop_last()
            } else {
                line
            },
        ] + line_seq(rest),
        line.len() > 0 ==> line_seq(line) == seq![line],
{
    let all = line + seq!['\n'] + rest;
    let n = line.len() as int;
    assert forall|k: int| 0 <= k < n implies all[k] != '\n' by {
        if all[k] == '\n' {
            assert(line[k] == '\n');
        }
    }
    assert forall|k: int| 0 <= k < n implies line[k] != '\n' by {
        if line[k] == '\n' {
            assert(line.contains('\n'));
        }
    }
    crate::text::lemma_index_of_char(all, '\n', n);
    crate::text::lemma_index_of_char(line, '\n', n);
    assert(all.take(n) =~= line);
    assert(all.skip(n + 1) =~= rest);
}

/// The decimal notation of a number reads as that number, is made of digits, and
/// has no zero that it could do without.
pub proof fn number_reads_back(n: nat)
    ensures
        all_digits(decimal(n)),
        digits_value(decimal(n)) == n,
        decimal(n).len() > 0,
        decimal(n).len() > 1 ==> decimal(n)[0] != '0',
        n <= u32::MAX ==> u32_value(decimal(n)) == Some(n as u32),
    decreases n,
{
    reveal_with_fuel(digits_value, 2);
    let d = decimal(n);
    if n < 10 {
        assert(d.drop_last() =~= seq![]);
        assert((n as int + 48) as char as int == n + 48);
    } else {
        number_reads_back(n / 10);
        assert(d.drop_last() =~= decimal(n / 10));
        assert((n % 10) as int + 48 <= 57);
        assert(((n % 10) as int + 48) as char as int == (n % 10) as int + 48);
        assert(n == (n / 10) * 10 + n % 10);
        if decimal(n / 10).len() == 1 {
            assert(n / 10 < 10) by {
                if n / 10 >= 10 {
                    number_reads_back(n / 100);
                    assert(n / 10 / 10 == n / 100);
                    assert(decimal(n / 10).len() == decimal(n / 100).len() + 1);
                }
            }
            assert(n / 10 > 0);
        }
    }
}

/// A number that is filled up keeps its value, has at least the width, and is
/// filled with zeros only as far as it is short.
pub proof fn filling_keeps_the_number(s: Seq<char>, width: int)
    requires
        all_digits(s),
    ensures
        digits_value(zero_padded(s, width)) == digits_value(s),
        zero_padded(s, width).len() >= width,
        s.len() >= width ==> zero_padded(s, width) == s,
        s.len() < width ==> zero_padded(s, width).len() == width,
        zero_padded(s, width).skip(zero_padded(s, width).len() - s.len()) == s,
        all_digits(zero_padded(s, width)),
{
    let z = crate::text::copies('0', width - s.len());
    assert(z + s == zero_padded(s, width));
    assert((z + s).skip(z.len() as int) =~= s);
    assert(s.len() >= width ==> z + s =~= s);
    lemma_leading_zeros(z, s);
    assert forall|i: int| 0 <= i < (z + s).len() implies crate::text::is_digit(
        #[trigger] (z + s)[i],
    ) by {
        if i >= z.len() {
            assert(crate::text::is_digit(s[i - z.len()]));
        }
    }
}

/// Zeros before a number change nothing.
proof fn lemma_leading_zeros(z: Seq<char>, s: Seq<char>)
    requires
        forall|i: int| 0 <= i < z.len() ==> #[trigger] z[i] == '0',
    ensures
        digits_value(z + s) == digits_value(s),
    decreases z.len() + s.len(),
{
    if s.len() > 0 {
        assert((z + s).drop_last() =~= z + s.drop_last());
        lemma_leading_zeros(z, s.drop_last());
    } else if z.len() > 0 {
        assert(z + s =~= z);
        let less = z.drop_last();
        assert forall|i: int| 0 <= i < less.len() implies #[trigger] less[i] == '0' by {
            assert(less[i] == z[i]);
        }
        lemma_leading_zeros(less, s);
        assert(less + s =~= less);
        assert(z.last() == '0') by {
            assert(z[z.len() - 1] == '0');
        }
    } else {
        assert(z + s =~= s);
    }
}

/// A text that fits is not cut. One that is cut keeps its first characters, as
/// many as there is room for, and says by an ellipsis that something is missing.
pub proof fn cut_text_says_so(s: Seq<char>, max: int)
    requires
        max > 0,
    ensures
        s.len() <= max ==> cut_text(s, max) == s && clip_text(s, max) == s,
        s.len() > max ==> cut_text(s, max).len() == max && cut_text(s, max).last() == '…'
            && cut_text(s, max).drop_last() == s.take(max - 1),
        s.len() > max ==> clip_text(s, max).len() == max + 1 && clip_text(s, max).last() == '…'
            && clip_text(s, max).drop_last() == s.take(max),
{
    if s.len() > max {
        assert(cut_text(s, max).drop_last() =~= s.take(max - 1));
        assert(clip_text(s, max).drop_last() =~= s.take(max));
    }
}

/// Lower case changes the letters `A` to `Z` to their lower-case forms, which
/// stand 32 places further, and nothing else; a second time changes nothing.
pub proof fn only_capitals_are_lowered(s: Seq<char>, i: int)
    requires
        0 <= i < s.len(),
    ensures
        ascii_lower(s).len() == s.len(),
        'A' <= s[i] <= 'Z' ==> ascii_lower(s)[i] as int == s[i] as int + 32,
        !('A' <= s[i] <= 'Z') ==> ascii_lower(s)[i] == s[i],
        ascii_lower(ascii_lower(s)) == ascii_lower(s),
{
    let t = ascii_lower(s);
    assert forall|k: int| 0 <= k < t.len() implies ascii_lower(t)[k] == t[k] by {
        assert(t[k] == crate::text::lower_char(s[k]));
        if 'A' <= s[k] <= 'Z' {
            assert(t[k] as int == s[k] as int + 32);
        }
    }
    assert(ascii_lower(t) =~= t);
}

/// Whether two texts part at a place: they are equal up to it, and there the
/// first ends or has the smaller character.
pub open spec fn part_at(a: Seq<char>, b: Seq<char>, k: int) -> bool {
    &&& 0 <= k <= a.len()
    &&& k < b.len()
    &&& a.take(k) == b.take(k)
    &&& k == a.len() || a[k] < b[k]
}

/// A text comes before another exactly where the first place at which they part
/// says so.
pub proof fn first_difference_decides(a: Seq<char>, b: Seq<char>)
    ensures
        lex_lt(a, b) <==> exists|k: int| part_at(a, b, k),
    decreases a.len(),
{
    if b.len() > 0 {
        if a.len() == 0 || a[0] < b[0] {
            assert(a.take(0) =~= b.take(0));
            assert(part_at(a, b, 0));
        } else if a[0] == b[0] {
            let x = a.skip(1);
            let y = b.skip(1);
            first_difference_decides(x, y);
            if lex_lt(x, y) {
                let k = choose|k: int| part_at(x, y, k);
                assert(a.take(k + 1) =~= seq![a[0]] + x.take(k));
                assert(b.take(k + 1) =~= seq![b[0]] + y.take(k));
                assert(part_at(a, b, k + 1));
            }
            if exists|k: int| part_at(a, b, k) {
                let k = choose|k: int| part_at(a, b, k);
                assert(k > 0);
                assert(x.take(k - 1) =~= a.take(k).skip(1));
                assert(y.take(k - 1) =~= b.take(k).skip(1));
                assert(part_at(x, y, k - 1));
            }
        } else if exists|k: int| part_at(a, b, k) {
            let k = choose|k: int| part_at(a, b, k);
            if k > 0 {
                assert(a.take(k)[0] == b.take(k)[0]);
            }
        }
    }
}

/// Replacing exchanges the first occurrence and goes on behind it; a text without
/// an occurrence stays as it is.
pub proof fn every_occurrence_is_replaced(s: Seq<char>, pat: Seq<char>, by: Seq<char>, i: int)
    requires
        pat.len() > 0,
        0 <= i <= s.len(),
        forall|k: int| 0 <= k < i ==> !#[trigger] occurs_at(s, pat, k),
    ensures
        occurs_at(s, pat, i) ==> replace(s, pat, by) == s.take(i) + by + replace(
            s.skip(i + pat.len()),
            pat,
            by,
        ),
        i == s.len() ==> replace(s, pat, by) == s,
    decreases i,
{
    if i == 0 {
        assert(s.take(0) + by =~= by);
        assert(s.len() == 0 ==> replace(s, pat, by) == s);
    } else {
        let rest = s.skip(1);
        assert(!occurs_at(s, pat, 0));
        assert forall|k: int| 0 <= k < i - 1 implies !#[trigger] occurs_at(rest, pat, k) by {
            assert(!occurs_at(s, pat, k + 1));
            if k + pat.len() <= rest.len() {
                assert(rest.subrange(k, k + pat.len()) =~= s.subrange(k + 1, k + 1 + pat.len()));
            }
        }
        every_occurrence_is_replaced(rest, pat, by, i - 1);
        if occurs_at(s, pat, i) {
            assert(rest.subrange(i - 1, i - 1 + pat.len()) =~= s.subrange(i, i + pat.len()));
            assert(occurs_at(rest, pat, i - 1));
            assert(rest.skip(i - 1 + pat.len()) =~= s.skip(i + pat.len()));
            assert(seq![s[0]] + rest.take(i - 1) =~= s.take(i));
            let tail = replace(s.skip(i + pat.len()), pat, by);
            assert(seq![s[0]] + (rest.take(i - 1) + by + tail) =~= s.take(i) + by + tail);
        }
        if i == s.len() {
            assert(seq![s[0]] + rest =~= s);
        }
    }
}

/// Two digits.
pub(crate) proof fn lemma_two(n: int)
    requires
        0 <= n < 100,
    ensures
        two(n).len() == 2,
        all_digits(two(n)),
        digits_value(two(n)) == n,
{
    number_reads_back(n as nat);
    filling_keeps_the_number(decimal(n as nat), 2);
    reveal_with_fuel(decimal, 3);
}

/// A timestamp says the second of its day: the hour, the minute and the second
/// that are written behind the date add up to it.
pub proof fn timestamp_says_its_second(unix: int)
    requires
        unix >= 0,
    ensures
        ({
            let all = rfc3339(unix);
            let date = date_text(civil(unix / 86400));
            let n = date.len() as int;
            &&& all.len() == n + 10
            &&& all.take(n) == date
            &&& digits_value(all.subrange(n + 1, n + 3)) * 3600 + digits_value(
                all.subrange(n + 4, n + 6),
            ) * 60 + digits_value(all.subrange(n + 7, n + 9)) == unix % 86400
            &&& digits_value(all.subrange(n + 4, n + 6)) < 60
            &&& digits_value(all.subrange(n + 7, n + 9)) < 60
        }),
{
    reveal_strlit("T");
    reveal_strlit(":");
    reveal_strlit("Z");
    let all = rfc3339(unix);
    let n = date_text(civil(unix / 86400)).len() as int;
    let secs = unix % 86400;
    lemma_two(secs / 3600);
    lemma_two((secs % 3600) / 60);
    lemma_two(secs % 60);
    assert(all.take(n) =~= date_text(civil(unix / 86400)));
    assert(all.subrange(n + 1, n + 3) =~= two(secs / 3600));
    assert(all.subrange(n + 4, n + 6) =~= two((secs % 3600) / 60));
    assert(all.subrange(n + 7, n + 9) =~= two(secs % 60));
}

} // verus!
