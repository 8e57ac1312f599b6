//! Incremental parser for server-sent events: fed with bytes (chunks may split
//! a line in the middle of a character), it yields the complete `data:`
//! payloads. Several `data:` lines of one event are joined by line feeds,
//! comments and other fields are ignored, lines end with `\n` or `\r\n`, and a
//! byte order mark at the start is dropped.

use vstd::prelude::*;

use crate::text::join_with;

verus! {

/// What `String::from_utf8_lossy` makes of bytes.
pub uninterp spec fn lossy(bytes: Seq<u8>) -> Seq<char>;

/// Calls `String::from_utf8_lossy`: bytes that are valid UTF-8 give their text.
#[verifier::external_body]
pub(crate) fn decode_lossy(bytes: &Vec<u8>) -> (r: String)
    ensures
        r@ == lossy(bytes@),
        vstd::utf8::valid_utf8(bytes@) ==> r@ == vstd::utf8::decode_utf8(bytes@),
{
    String::from_utf8_lossy(bytes).into_owned()
}

/// The bytes of `data`.
pub open spec fn data_name() -> Seq<u8> {
    seq![100u8, 97u8, 116u8, 97u8]
}

/// The value of a `data` line, without one leading space; `None` for any other
/// line.
pub open spec fn data_value(line: Seq<u8>) -> Option<Seq<u8>> {
    if line == data_name() {
        Some(seq![])
    } else if line.len() > 4 && line.take(4) == data_name() && line[4] == 58u8 {
        Some(
            if line.len() > 5 && line[5] == 32u8 {
                line.skip(6)
            } else {
                line.skip(5)
            },
        )
    } else {
        None
    }
}

/// The state of a parser.
#[verifier::ext_equal]
pub struct SseView {
    /// The bytes of the line that is not complete yet.
    pub pending: Seq<u8>,
    /// The `data` values of the event that is not complete yet.
    pub data: Seq<Seq<char>>,
    /// Whether the start of the stream has been decided on.
    pub started: bool,
}

/// The payload of an event with these `data` values.
pub open spec fn payload(data: Seq<Seq<char>>) -> Seq<Seq<char>> {
    if data.len() == 0 {
        seq![]
    } else {
        seq![crate::text::join(data, "\n"@)]
    }
}

/// The `data` values after a complete line.
pub open spec fn after_line(data: Seq<Seq<char>>, line: Seq<u8>) -> Seq<Seq<char>> {
    if line.len() == 0 {
        seq![]
    } else {
        match data_value(line) {
            Some(value) => data.push(lossy(value)),
            None => data,
        }
    }
}

/// The payload that a complete line releases: an empty line ends an event.
pub open spec fn line_payload(data: Seq<Seq<char>>, line: Seq<u8>) -> Seq<Seq<char>> {
    if line.len() == 0 {
        payload(data)
    } else {
        seq![]
    }
}

/// A line without one carriage return at its end.
pub open spec fn bare_line(line: Seq<u8>) -> Seq<u8> {
    if line.len() > 0 && line.last() == 13u8 {
        line.drop_last()
    } else {
        line
    }
}

/// The byte order mark.
pub open spec fn bom() -> Seq<u8> {
    seq![0xEFu8, 0xBBu8, 0xBFu8]
}

/// The state after one byte. The start of the stream is decided on with its
/// third byte, or with the first line feed: a byte order mark is dropped.
pub open spec fn after_byte(s: SseView, b: u8) -> SseView {
    if b == 10u8 {
        SseView {
            pending: seq![],
            data: after_line(s.data, bare_line(s.pending)),
            started: true,
        }
    } else {
        let pending = s.pending.push(b);
        if s.started {
            SseView { pending: pending, ..s }
        } else if pending.len() < 3 {
            SseView { pending: pending, ..s }
        } else {
            SseView {
                pending: if pending.take(3) == bom() {
                    pending.skip(3)
                } else {
                    pending
                },
                data: s.data,
                started: true,
            }
        }
    }
}

/// The payload that one byte releases.
pub open spec fn byte_payload(s: SseView, b: u8) -> Seq<Seq<char>> {
    if b == 10u8 {
        line_payload(s.data, bare_line(s.pending))
    } else {
        seq![]
    }
}

/// The state after a chunk.
pub open spec fn after_chunk(s: SseView, bytes: Seq<u8>) -> SseView
    decreases bytes.len(),
{
    if bytes.len() == 0 {
        s
    } else {
        after_byte(after_chunk(s, bytes.drop_last()), bytes.last())
    }
}

/// The payloads that a chunk releases.
pub open spec fn chunk_payloads(s: SseView, bytes: Seq<u8>) -> Seq<Seq<char>>
    decreases bytes.len(),
{
    if bytes.len() == 0 {
        seq![]
    } else {
        chunk_payloads(s, bytes.drop_last()) + byte_payload(
            after_chunk(s, bytes.drop_last()),
            bytes.last(),
        )
    }
}

/// The payloads that the end of the stream releases: of a last line without an
/// ending, then of an event without an empty line.
pub open spec fn end_payloads(s: SseView) -> Seq<Seq<char>> {
    if s.pending.len() == 0 {
        payload(s.data)
    } else {
        line_payload(s.data, s.pending) + payload(after_line(s.data, s.pending))
    }
}

/// A new parser.
pub open spec fn fresh() -> SseView {
    SseView { pending: seq![], data: seq![], started: false }
}

/// How a stream is cut into chunks does not matter: two chunks leave the same
/// state, and release the same payloads, as both in one.
pub proof fn chunks_do_not_matter(s: SseView, a: Seq<u8>, b: Seq<u8>)
    ensures
        after_chunk(s, a + b) == after_chunk(after_chunk(s, a), b),
        chunk_payloads(s, a + b) == chunk_payloads(s, a) + chunk_payloads(after_chunk(s, a), b),
    decreases b.len(),
{
    if b.len() == 0 {
        assert(a + b =~= a);
        assert(chunk_payloads(s, a) + seq![] =~= chunk_payloads(s, a));
    } else {
        chunks_do_not_matter(s, a, b.drop_last());
        assert((a + b).drop_last() =~= a + b.drop_last());
        assert((a + b).last() == b.last());
        let x = chunk_payloads(s, a);
        let y = chunk_payloads(after_chunk(s, a), b.drop_last());
        let z = byte_payload(after_chunk(after_chunk(s, a), b.drop_last()), b.last());
        assert((x + y) + z =~= x + (y + z));
    }
}

/// A byte order mark at the start of a stream leaves no trace: what follows it
/// is read as if it stood at the start of a stream that has been decided on.
pub proof fn byte_order_mark_is_dropped(rest: Seq<u8>)
    ensures
        after_chunk(fresh(), bom() + rest) == after_chunk(
            SseView { started: true, ..fresh() },
            rest,
        ),
        chunk_payloads(fresh(), bom() + rest) == chunk_payloads(
            SseView { started: true, ..fresh() },
            rest,
        ),
{
    let one = seq![0xEFu8];
    let two = seq![0xEFu8, 0xBBu8];
    assert(two.drop_last() =~= one);
    assert(bom().drop_last() =~= two);
    assert(one.drop_last() =~= seq![]);
    reveal_with_fuel(after_chunk, 4);
    reveal_with_fuel(chunk_payloads, 4);
    assert(seq![].push(0xEFu8) =~= one);
    assert(one.push(0xBBu8) =~= two);
    assert(two.push(0xBFu8) =~= bom());
    assert(bom().take(3) =~= bom());
    assert(bom().skip(3) =~= seq![]);
    assert(after_chunk(fresh(), bom()) =~= (SseView { started: true, ..fresh() }));
    assert(chunk_payloads(fresh(), bom()) =~= seq![]);
    chunks_do_not_matter(fresh(), bom(), rest);
    assert(seq![] + chunk_payloads(after_chunk(fresh(), bom()), rest) =~= chunk_payloads(
        after_chunk(fresh(), bom()),
        rest,
    ));
}

/// Parser for server-sent events: takes bytes, yields complete payloads.
#[derive(Debug)]
pub struct SseParser {
    pending: Vec<u8>,
    data_lines: Vec<String>,
    started: bool,
}

impl View for SseParser {
    type V = SseView;

    closed spec fn view(&self) -> SseView {
        SseView {
            pending: self.pending@,
            data: crate::text::texts(self.data_lines@),
            started: self.started,
        }
    }
}

/// The value of a `data` line.
fn value_of_line(line: &Vec<u8>) -> (r: Option<Vec<u8>>)
    ensures
        r is Some <==> data_value(line@) is Some,
        r matches Some(v) ==> data_value(line@) == Some(v@),
{
    if line.len() < 4 || line[0] != 100u8 || line[1] != 97u8 || line[2] != 116u8 || line[3]
        != 97u8 {
        proof {
            if line@.len() >= 4 {
                assert(line@.take(4)[0] == line@[0] && line@.take(4)[1] == line@[1]);
                assert(line@.take(4)[2] == line@[2] && line@.take(4)[3] == line@[3]);
            }
        }
        return None;
    }
    assert(line@.take(4) =~= data_name());
    if line.len() == 4 {
        let empty: Vec<u8> = Vec::new();
        assert(line@ =~= data_name());
        assert(empty@ =~= seq![]);
        return Some(empty);
    }
    if line[4] != 58u8 {
        return None;
    }
    let mut i: usize = if line.len() > 5 && line[5] == 32u8 {
        6
    } else {
        5
    };
    let ghost from = i as int;
    let mut out: Vec<u8> = Vec::new();
    while i < line.len()
        invariant
            5 <= from <= i <= line.len(),
            out@ =~= line@.subrange(from, i as int),
        decreases line.len() - i,
    {
        out.push(line[i]);
        i = i + 1;
    }
    assert(out@ =~= line@.skip(from));
    Some(out)
}

impl SseParser {
    /// A parser at the start of a stream.
    pub fn new() -> (r: SseParser)
        ensures
            r@ == fresh(),
    {
        let r = SseParser { pending: Vec::new(), data_lines: Vec::new(), started: false };
        assert(r@ =~= fresh());
        r
    }

    /// Feeds a chunk; returns the payload of every event it completes.
    pub fn push(&mut self, bytes: &[u8]) -> (r: Vec<String>)
        ensures
            final(self)@ == after_chunk(old(self)@, bytes@),
            crate::text::texts(r@) == chunk_payloads(old(self)@, bytes@),
    {
        let mut out: Vec<String> = Vec::new();
        let mut i: usize = 0;
        assert(bytes@.take(0) =~= seq![]);
        assert(crate::text::texts(out@) =~= seq![]);
        while i < bytes.len()
            invariant
                i <= bytes@.len(),
                self@ == after_chunk(old(self)@, bytes@.take(i as int)),
                crate::text::texts(out@) == chunk_payloads(old(self)@, bytes@.take(i as int)),
            decreases bytes@.len() - i,
        {
            assert(bytes@.take(i + 1).drop_last() =~= bytes@.take(i as int));
            let ghost before = crate::text::texts(out@);
            match self.step(bytes[i]) {
                Some(p) => {
                    out.push(p);
                    assert(crate::text::texts(out@) =~= before + seq![p@]);
                },
                None => {
                    assert(before + seq![] =~= before);
                },
            }
            i = i + 1;
        }
        assert(bytes@.take(i as int) =~= bytes@);
        out
    }

    /// Takes one byte.
    fn step(&mut self, b: u8) -> (r: Option<String>)
        ensures
            final(self)@ == after_byte(old(self)@, b),
            opt_payload(r) == byte_payload(old(self)@, b),
    {
        if b == 10u8 {
            let mut line: Vec<u8> = Vec::new();
            line.append(&mut self.pending);
            if line.len() > 0 && line[line.len() - 1] == 13u8 {
                let _ = line.pop();
            }
            assert(line@ =~= bare_line(old(self)@.pending));
            self.started = true;
            let r = self.process_line(&line);
            assert(self@.pending =~= seq![]);
            r
        } else {
            self.pending.push(b);
            if !self.started && self.pending.len() >= 3 {
                self.started = true;
                if self.pending[0] == 0xEFu8 && self.pending[1] == 0xBBu8 && self.pending[2]
                    == 0xBFu8 {
                    assert(self.pending@.take(3) =~= bom());
                    let rest = self.pending.split_off(3);
                    assert(rest@ =~= old(self)@.pending.push(b).skip(3));
                    self.pending = rest;
                } else {
                    proof {
                        let t = self.pending@.take(3);
                        assert(t[0] == self.pending@[0] && t[1] == self.pending@[1] && t[2]
                            == self.pending@[2]);
                    }
                }
            }
            None
        }
    }

    /// Ends the stream; returns the payloads that are still due.
    pub fn finish(&mut self) -> (r: Vec<String>)
        ensures
            final(self)@.pending == Seq::<u8>::empty(),
            final(self)@.data == Seq::<Seq<char>>::empty(),
            final(self)@.started == old(self)@.started,
            crate::text::texts(r@) == end_payloads(old(self)@),
    {
        let mut out: Vec<String> = Vec::new();
        assert(crate::text::texts(out@) =~= seq![]);
        if self.pending.len() > 0 {
            let mut line: Vec<u8> = Vec::new();
            line.append(&mut self.pending);
            assert(line@ =~= old(self)@.pending);
            if let Some(p) = self.process_line(&line) {
                out.push(p);
            }
            assert(crate::text::texts(out@) =~= line_payload(old(self)@.data, line@));
        }
        let ghost before = crate::text::texts(out@);
        let ghost data = self@.data;
        if let Some(p) = self.dispatch() {
            out.push(p);
        }
        assert(crate::text::texts(out@) =~= before + payload(data));
        assert(seq![] + payload(data) =~= payload(data));
        out
    }

    fn process_line(&mut self, line: &Vec<u8>) -> (r: Option<String>)
        ensures
            final(self)@.pending == old(self)@.pending,
            final(self)@.started == old(self)@.started,
            final(self)@.data == after_line(old(self)@.data, line@),
            opt_payload(r) == line_payload(old(self)@.data, line@),
    {
        if line.len() == 0 {
            return self.dispatch();
        }
        if let Some(value) = value_of_line(line) {
            let ghost before = self@.data;
            let text = decode_lossy(&value);
            self.data_lines.push(text);
            assert(self@.data =~= before.push(text@));
        }
        None
    }

    fn dispatch(&mut self) -> (r: Option<String>)
        ensures
            final(self)@.pending == old(self)@.pending,
            final(self)@.started == old(self)@.started,
            final(self)@.data == Seq::<Seq<char>>::empty(),
            opt_payload(r) == payload(old(self)@.data),
    {
        if self.data_lines.len() == 0 {
            assert(self@.data =~= seq![]);
            return None;
        }
        let text = join_with(&self.data_lines, "\n");
        self.data_lines = Vec::new();
        assert(self@.data =~= seq![]);
        Some(text)
    }
}

/// The payloads in an optional payload.
pub open spec fn opt_payload(o: Option<String>) -> Seq<Seq<char>> {
    match o {
        Some(s) => seq![s@],
        None => seq![],
    }
}

} // verus!
