//! The audit log: one JSON line for every tool execution and every decision.

use vstd::prelude::*;

use crate::fields::{read_opt_str, read_str, read_u64, FromJson, Record};
use crate::json::{Json, JsonView};
use crate::text::copy_opt;

verus! {

/// One line of the audit log.
#[derive(Debug, PartialEq, Eq)]
pub struct AuditEntry {
    pub turn_id: u64,
    /// Tool name, or `worker:<name>` for a worker call.
    pub tool: String,
    pub input: Json,
    /// The decision, where the tool went through the consent flow.
    pub decision: Option<String>,
    /// The model that a worker call ran with.
    pub model: Option<String>,
    /// A short outcome word.
    pub status: String,
    pub duration_ms: u64,
}

/// The content of an [`AuditEntry`].
#[verifier::ext_equal]
pub struct AuditEntryView {
    pub turn_id: u64,
    pub tool: Seq<char>,
    pub input: JsonView,
    pub decision: Option<Seq<char>>,
    pub model: Option<Seq<char>>,
    pub status: Seq<char>,
    pub duration_ms: u64,
}

impl View for AuditEntry {
    type V = AuditEntryView;

    open spec fn view(&self) -> AuditEntryView {
        AuditEntryView {
            turn_id: self.turn_id,
            tool: self.tool@,
            input: self.input@,
            decision: crate::text::opt_text(self.decision),
            model: crate::text::opt_text(self.model),
            status: self.status@,
            duration_ms: self.duration_ms,
        }
    }
}

/// The fields of an entry: what is missing is left out.
pub open spec fn entry_fields(e: AuditEntryView) -> Seq<crate::json::FieldView> {
    seq![
        crate::json::entry("turn_id"@, JsonView::U64(e.turn_id)),
        crate::json::entry("tool"@, JsonView::Str(e.tool)),
    ] + (if e.input is Null {
        seq![]
    } else {
        seq![crate::json::entry("input"@, e.input)]
    }) + crate::fields::text_field("decision"@, e.decision) + crate::fields::text_field(
        "model"@,
        e.model,
    ) + seq![
        crate::json::entry("status"@, JsonView::Str(e.status)),
        crate::json::entry("duration_ms"@, JsonView::U64(e.duration_ms)),
    ]
}

/// The JSON form of an entry.
pub open spec fn entry_json(e: AuditEntryView) -> JsonView {
    crate::json::object(entry_fields(e))
}

impl AuditEntry {
    /// The JSON form.
    pub fn to_json(&self) -> (r: Json)
        ensures
            r@ == entry_json(self@),
    {
        let ghost f = |f: (&str, Json)| crate::json::entry(f.0@, f.1@);
        let mut fields: Vec<(&str, Json)> = vec![
            ("turn_id", Json::of_u64(self.turn_id)),
            ("tool", Json::Str(self.tool.clone())),
        ];
        let ghost one = seq![
            crate::json::entry("turn_id"@, JsonView::U64(self.turn_id)),
            crate::json::entry("tool"@, JsonView::Str(self.tool@)),
        ];
        assert(fields@.map_values(f) =~= one);
        let ghost two = if self@.input is Null {
            seq![]
        } else {
            seq![crate::json::entry("input"@, self@.input)]
        };
        match &self.input {
            Json::Null => {},
            other => {
                fields.push(("input", other.copy()));
            },
        }
        assert(fields@.map_values(f) =~= one + two);
        if let Some(d) = &self.decision {
            fields.push(("decision", Json::Str(d.clone())));
        }
        let ghost three = one + two + crate::fields::text_field("decision"@, self@.decision);
        assert(fields@.map_values(f) =~= three);
        if let Some(m) = &self.model {
            fields.push(("model", Json::Str(m.clone())));
        }
        assert(fields@.map_values(f) =~= three + crate::fields::text_field("model"@, self@.model));
        fields.push(("status", Json::Str(self.status.clone())));
        fields.push(("duration_ms", Json::of_u64(self.duration_ms)));
        assert(fields@.map_values(f) =~= entry_fields(self@));
        Json::of_fields(fields)
    }

    /// The line that the log appends, without its line feed.
    pub fn line(&self) -> (r: String)
        ensures
            r@ == crate::json::tree_text(crate::json::settle(entry_json(self@))),
            crate::json::one_line(r@),
            crate::events_json::fits_inside(self@.input) ==> crate::json::reads_as(
                r@,
                entry_json(self@),
            ),
    {
        let j = self.to_json();
        proof {
            if crate::events_json::fits_inside(self@.input) {
                let all = entry_fields(self@);
                assert forall|i: int| 0 <= i < all.len() implies crate::events_json::fits_inside(
                    (#[trigger] all[i]).value,
                ) by {}
                crate::events_json::lemma_object_fits(all);
                crate::json::lemma_settle(j@);
            }
        }
        j.to_text()
    }
}

impl Record for AuditEntry {
    open spec fn names() -> Seq<Seq<char>> {
        seq!["turn_id"@, "tool"@, "input"@, "decision"@, "model"@, "status"@, "duration_ms"@]
    }

    open spec fn of_object(j: JsonView) -> Option<AuditEntryView> {
        match (
            crate::fields::u64_at(j, "turn_id"@),
            crate::fields::str_at(j, "tool"@),
            crate::fields::opt_str_at(j, "decision"@),
            crate::fields::opt_str_at(j, "model"@),
            crate::fields::str_at(j, "status"@),
            crate::fields::u64_at(j, "duration_ms"@),
        ) {
            (
                Some(turn_id),
                Some(tool),
                Some(decision),
                Some(model),
                Some(status),
                Some(duration_ms),
            ) => Some(
                AuditEntryView {
                    turn_id: turn_id,
                    tool: tool,
                    input: match crate::fields::member(j, "input"@) {
                        Some(x) => x,
                        None => JsonView::Null,
                    },
                    decision: decision,
                    model: model,
                    status: status,
                    duration_ms: duration_ms,
                },
            ),
            _ => None,
        }
    }

    fn field_names() -> (r: Vec<&'static str>) {
        let r: Vec<&'static str> = vec![
            "turn_id",
            "tool",
            "input",
            "decision",
            "model",
            "status",
            "duration_ms",
        ];
        assert(crate::fields::names_of(r@) =~= Self::names());
        r
    }

    fn from_object(j: &Json) -> (r: Option<AuditEntry>) {
        let input: Json = match j.get("input") {
            Some(x) => x.copy(),
            None => Json::Null,
        };
        match (
            read_u64(j, "turn_id"),
            read_str(j, "tool"),
            read_opt_str(j, "decision"),
            read_opt_str(j, "model"),
            read_str(j, "status"),
            read_u64(j, "duration_ms"),
        ) {
            (
                Some(turn_id),
                Some(tool),
                Some(decision),
                Some(model),
                Some(status),
                Some(duration_ms),
            ) => Some(AuditEntry { turn_id, tool, input, decision, model, status, duration_ms }),
            _ => None,
        }
    }
}

/// Every entry reads back from its JSON form as it was.
pub proof fn audit_entry_round_trip(e: AuditEntryView)
    ensures
        <AuditEntry as FromJson>::of(entry_json(e)) == Some(e),
{
    reveal_strlit("turn_id");
    reveal_strlit("tool");
    reveal_strlit("status");
    reveal_strlit("duration_ms");
    reveal_strlit("input");
    reveal_strlit("decision");
    reveal_strlit("model");
    assert("turn_id"@.len() == 7);
    assert("tool"@.len() == 4);
    assert("status"@.len() == 6);
    assert("duration_ms"@.len() == 11);
    assert("input"@.len() == 5);
    assert("decision"@.len() == 8);
    assert("model"@.len() == 5);
    assert("input"@[0] != "model"@[0]);
    let all = entry_fields(e);
    let j = entry_json(e);
    let two = if e.input is Null {
        0int
    } else {
        1int
    };
    let three = crate::fields::text_field("decision"@, e.decision).len() as int;
    let four = crate::fields::text_field("model"@, e.model).len() as int;
    crate::json::lemma_collect_has(all, 0);
    crate::json::lemma_collect_has(all, 1);
    crate::json::lemma_collect_has(all, 2 + two + three + four);
    crate::json::lemma_collect_has(all, 3 + two + three + four);
    if e.input is Null {
        crate::json::lemma_collect_lacks(all, "input"@);
    } else {
        crate::json::lemma_collect_has(all, 2);
    }
    if e.decision is Some {
        crate::json::lemma_collect_has(all, 2 + two);
    } else {
        crate::json::lemma_collect_lacks(all, "decision"@);
    }
    if e.model is Some {
        crate::json::lemma_collect_has(all, 2 + two + three);
    } else {
        crate::json::lemma_collect_lacks(all, "model"@);
    }
}

/// Where the audit log is written; a disabled log drops its entries.
#[derive(Debug)]
pub struct AuditLog {
    path: Option<String>,
}

impl View for AuditLog {
    type V = Option<Seq<char>>;

    closed spec fn view(&self) -> Option<Seq<char>> {
        crate::text::opt_text(self.path)
    }
}

impl Clone for AuditLog {
    fn clone(&self) -> (r: Self)
        ensures
            r@ == self@,
    {
        AuditLog { path: copy_opt(&self.path) }
    }
}

impl AuditLog {
    /// A log that records nothing.
    pub fn disabled() -> (r: AuditLog)
        ensures
            r@ is None,
    {
        AuditLog { path: None }
    }

    /// A log that is written to `path`.
    pub fn new(path: &str) -> (r: AuditLog)
        ensures
            r@ == Some(path@),
    {
        AuditLog { path: Some(path.to_owned()) }
    }

    /// Whether entries are recorded.
    pub fn is_enabled(&self) -> (r: bool)
        ensures
            r == (self@ is Some),
    {
        self.path.is_some()
    }

    /// Where entries go.
    pub fn path(&self) -> (r: Option<&str>)
        ensures
            r is Some <==> self@ is Some,
            r matches Some(p) ==> self@ == Some(p@),
    {
        match &self.path {
            Some(p) => Some(p.as_str()),
            None => None,
        }
    }

    /// What is to be appended, and where; `None` for a disabled log.
    pub fn append(&self, entry: &AuditEntry) -> (r: Option<(String, String)>)
        ensures
            r is Some <==> self@ is Some,
            r matches Some(w) ==> self@ == Some(w.0@) && w.1@ == crate::json::tree_text(
                crate::json::settle(entry_json(entry@)),
            ) + "\n"@,
    {
        match &self.path {
            Some(p) => {
                let mut line = entry.line();
                line.append("\n");
                Some((p.clone(), line))
            },
            None => None,
        }
    }
}

/// A line of the audit log says what was done: the turn, the tool, what went into
/// it, who decided, the model, how it ended and how long it took, each under its
/// own name.
pub proof fn line_says_what_was_done(e: AuditEntryView)
    ensures
        ({
            let j = entry_json(e);
            &&& crate::fields::u64_at(j, "turn_id"@) == Some(e.turn_id)
            &&& crate::fields::str_at(j, "tool"@) == Some(e.tool)
            &&& crate::fields::str_at(j, "status"@) == Some(e.status)
            &&& crate::fields::u64_at(j, "duration_ms"@) == Some(e.duration_ms)
            &&& crate::fields::str_at(j, "decision"@) == e.decision
            &&& crate::fields::str_at(j, "model"@) == e.model
            &&& if e.input is Null {
                crate::fields::member(j, "input"@) is None
            } else {
                crate::fields::member(j, "input"@) == Some(e.input)
            }
        }),
{
    reveal_strlit("turn_id");
    reveal_strlit("tool");
    reveal_strlit("status");
    reveal_strlit("duration_ms");
    reveal_strlit("input");
    reveal_strlit("decision");
    reveal_strlit("model");
    assert("turn_id"@.len() == 7);
    assert("tool"@.len() == 4);
    assert("status"@.len() == 6);
    assert("duration_ms"@.len() == 11);
    assert("input"@.len() == 5);
    assert("decision"@.len() == 8);
    assert("model"@.len() == 5);
    assert("input"@[0] != "model"@[0]);
    let all = entry_fields(e);
    let j = entry_json(e);
    let two = if e.input is Null {
        0int
    } else {
        1int
    };
    let three = crate::fields::text_field("decision"@, e.decision).len() as int;
    let four = crate::fields::text_field("model"@, e.model).len() as int;
    crate::json::lemma_collect_has(all, 0);
    crate::json::lemma_collect_has(all, 1);
    crate::json::lemma_collect_has(all, 2 + two + three + four);
    crate::json::lemma_collect_has(all, 3 + two + three + four);
    if e.input is Null {
        crate::json::lemma_collect_lacks(all, "input"@);
    } else {
        crate::json::lemma_collect_has(all, 2);
    }
    if e.decision is Some {
        crate::json::lemma_collect_has(all, 2 + two);
    } else {
        crate::json::lemma_collect_lacks(all, "decision"@);
    }
    if e.model is Some {
        crate::json::lemma_collect_has(all, 2 + two + three);
    } else {
        crate::json::lemma_collect_lacks(all, "model"@);
    }
}

} // verus!
