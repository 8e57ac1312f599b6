//! The wire form of events: one JSON object per event, tagged by its type.

use vstd::prelude::*;

use crate::error::ApiErrorKind;
use crate::events::{ApprovalKind, ApprovalKindView, CoreEvent, CoreEventView, Usage};
use crate::fields::{
    opt_to_json, read_bool, read_opt_str, read_opt_u64, read_record, read_str, read_strs,
    strs_to_json,
};
use crate::json::{Json, JsonView};
use crate::text::same;

verus! {

/// Whether a value can stand in an object on the wire: it holds each key once, holds
/// integers only and leaves room for one more level of nesting.
pub open spec fn fits_inside(j: JsonView) -> bool {
    crate::json::tidy(j, (crate::json::MAX_NESTING - 1) as nat)
}

/// An object of values that fit holds each key once and reads back.
pub proof fn lemma_object_fits(fields: Seq<crate::json::FieldView>)
    requires
        forall|i: int| 0 <= i < fields.len() ==> fits_inside((#[trigger] fields[i]).value),
    ensures
        crate::json::settled(crate::json::object(fields)),
        crate::json::readable(crate::json::object(fields)),
{
    assert forall|i: int| 0 <= i < fields.len() implies crate::json::tidy(
        (#[trigger] fields[i]).value,
        (crate::json::MAX_NESTING - 1) as nat,
    ) by {
        assert(fits_inside(fields[i].value));
    }
    crate::json::lemma_tidy_object(fields, crate::json::MAX_NESTING as nat);
}

/// The wire form of a usage report can stand in an event.
pub proof fn lemma_usage_fits(u: Usage)
    ensures
        fits_inside(usage_json(u)),
{
    let all = usage_fields(u);
    crate::json::lemma_collect(all);
    let c = crate::json::collect(all);
    assert forall|i: int| 0 <= i < c.len() implies (#[trigger] c[i]).value is U64 by {
        let k = choose|k: int| 0 <= k < all.len() && all[k] == c[i];
        assert(all[k].value is U64);
    }
    reveal_with_fuel(crate::json::settled, 2);
    reveal_with_fuel(crate::json::whole_numbers, 2);
    reveal_with_fuel(crate::json::nested_within, 2);
}

/// The wire form of a usage report is tidy at any depth.
pub proof fn lemma_usage_tidy(u: Usage, depth: nat)
    requires
        depth > 0,
    ensures
        crate::json::tidy(usage_json(u), depth),
{
    let all = usage_fields(u);
    assert forall|i: int| 0 <= i < all.len() implies crate::json::tidy(
        (#[trigger] all[i]).value,
        (depth - 1) as nat,
    ) by {}
    crate::json::lemma_tidy_object(all, depth);
}

/// The wire form of what a consent card asks for is tidy beyond one level.
pub proof fn lemma_approval_tidy(k: ApprovalKindView, depth: nat)
    requires
        depth > 1,
    ensures
        crate::json::tidy(approval_json(k), depth),
{
    let all = approval_fields(k);
    if let ApprovalKindView::PackageInstall { packages } = k {
        crate::json::lemma_tidy_simple_array(
            crate::fields::strs_json(packages),
            (depth - 1) as nat,
        );
    }
    assert forall|i: int| 0 <= i < all.len() implies crate::json::tidy(
        (#[trigger] all[i]).value,
        (depth - 1) as nat,
    ) by {}
    crate::json::lemma_tidy_object(all, depth);
}

/// A list of strings is shallow.
proof fn lemma_strs_shallow(s: Seq<Seq<char>>)
    ensures
        crate::json::settled(JsonView::Array(crate::fields::strs_json(s))),
        crate::json::whole_numbers(JsonView::Array(crate::fields::strs_json(s))),
        crate::json::nested_within(JsonView::Array(crate::fields::strs_json(s)), 1),
{
    let a = crate::fields::strs_json(s);
    assert forall|i: int| 0 <= i < a.len() implies (#[trigger] a[i]) is Str by {}
    reveal_with_fuel(crate::json::settled, 2);
    reveal_with_fuel(crate::json::whole_numbers, 2);
    reveal_with_fuel(crate::json::nested_within, 2);
}

/// The wire form of what a consent card asks for can stand in an event.
proof fn lemma_approval_fits(k: ApprovalKindView)
    ensures
        fits_inside(approval_json(k)),
{
    let all = approval_fields(k);
    if let ApprovalKindView::PackageInstall { packages } = k {
        lemma_strs_shallow(packages);
    }
    crate::json::lemma_collect(all);
    let c = crate::json::collect(all);
    assert forall|i: int| 0 <= i < c.len() implies crate::json::settled((#[trigger] c[i]).value)
        && crate::json::whole_numbers(c[i].value) && crate::json::nested_within(
        c[i].value,
        (crate::json::MAX_NESTING - 2) as nat,
    ) by {
        let k = choose|k: int| 0 <= k < all.len() && all[k] == c[i];
        assert(all[k] == c[i]);
        if all[k].value is Array {
            crate::json::lemma_nested_more(all[k].value, 1, (crate::json::MAX_NESTING - 2) as nat);
        }
    }
}

/// The fields of a usage report that are there.
pub open spec fn usage_fields(u: Usage) -> Seq<crate::json::FieldView> {
    count_field("input_tokens"@, u.input_tokens) + count_field("output_tokens"@, u.output_tokens)
        + count_field("total_tokens"@, u.total_tokens)
}

/// The field of a count that is there.
pub open spec fn count_field(key: Seq<char>, n: Option<u64>) -> Seq<crate::json::FieldView> {
    match n {
        Some(n) => seq![crate::json::entry(key, JsonView::U64(n))],
        None => seq![],
    }
}

/// The wire form of a usage report: missing fields are left out.
pub open spec fn usage_json(u: Usage) -> JsonView {
    crate::json::object(usage_fields(u))
}

/// The wire form of an optional usage report.
pub open spec fn opt_usage_json(u: Option<Usage>) -> JsonView {
    match u {
        Some(u) => usage_json(u),
        None => JsonView::Null,
    }
}

/// The names of the fields of a usage report, in their order.
pub open spec fn usage_names() -> Seq<Seq<char>> {
    seq!["input_tokens"@, "output_tokens"@, "total_tokens"@]
}

/// The usage report that a value stands for.
pub open spec fn usage_of(j: JsonView) -> Option<Usage> {
    match crate::fields::record(j, usage_names(), true) {
        Some(o) => match (
            crate::fields::opt_u64_at(o, "input_tokens"@),
            crate::fields::opt_u64_at(o, "output_tokens"@),
            crate::fields::opt_u64_at(o, "total_tokens"@),
        ) {
            (Some(i), Some(o), Some(t)) => Some(
                Usage { input_tokens: i, output_tokens: o, total_tokens: t },
            ),
            _ => None,
        },
        None => None,
    }
}

/// The optional usage report in a field; `None` where it is not one.
pub open spec fn opt_usage_at(j: JsonView, key: Seq<char>) -> Option<Option<Usage>> {
    match crate::fields::member(j, key) {
        None => Some(None),
        Some(JsonView::Null) => Some(None),
        Some(x) => match usage_of(x) {
            Some(u) => Some(Some(u)),
            None => None,
        },
    }
}

impl Usage {
    /// The wire form.
    pub fn to_json(&self) -> (r: Json)
        ensures
            r@ == usage_json(*self),
            crate::json::settled(r@),
            crate::json::whole_numbers(r@),
    {
        let mut fields: Vec<(&str, Json)> = Vec::new();
        let ghost f = |f: (&str, Json)| crate::json::entry(f.0@, f.1@);
        assert(fields@.map_values(f) =~= seq![]);
        if let Some(n) = self.input_tokens {
            fields.push(("input_tokens", Json::of_u64(n)));
        }
        assert(fields@.map_values(f) =~= count_field("input_tokens"@, self.input_tokens));
        if let Some(n) = self.output_tokens {
            fields.push(("output_tokens", Json::of_u64(n)));
        }
        assert(fields@.map_values(f) =~= count_field("input_tokens"@, self.input_tokens)
            + count_field("output_tokens"@, self.output_tokens));
        if let Some(n) = self.total_tokens {
            fields.push(("total_tokens", Json::of_u64(n)));
        }
        assert(fields@.map_values(f) =~= usage_fields(*self));
        let r = Json::of_fields(fields);
        proof {
            lemma_usage_fits(*self);
        }
        r
    }

    /// The report that a value stands for.
    pub fn from_json(j: &Json) -> (r: Option<Usage>)
        ensures
            r == usage_of(j@),
    {
        let names: Vec<&str> = vec!["input_tokens", "output_tokens", "total_tokens"];
        assert(crate::fields::names_of(names@) =~= usage_names());
        let o: Json = match read_record(j, &names, true) {
            Some(o) => o,
            None => {
                return None;
            },
        };
        match (
            read_opt_u64(&o, "input_tokens"),
            read_opt_u64(&o, "output_tokens"),
            read_opt_u64(&o, "total_tokens"),
        ) {
            (Some(i), Some(o), Some(t)) => Some(
                Usage { input_tokens: i, output_tokens: o, total_tokens: t },
            ),
            _ => None,
        }
    }
}

/// The wire form of an optional report.
fn opt_usage_to_json(u: &Option<Usage>) -> (r: Json)
    ensures
        r@ == opt_usage_json(*u),
        crate::json::settled(r@),
        crate::json::whole_numbers(r@),
{
    match u {
        Some(u) => u.to_json(),
        None => Json::Null,
    }
}

/// The fields of what a consent card asks for.
pub open spec fn approval_fields(k: ApprovalKindView) -> Seq<crate::json::FieldView> {
    match k {
        ApprovalKindView::MemoryWrite { path } => seq![
            crate::json::entry("kind"@, JsonView::Str("memory_write"@)),
            crate::json::entry("path"@, JsonView::Str(path)),
        ],
        ApprovalKindView::PackageInstall { packages } => seq![
            crate::json::entry("kind"@, JsonView::Str("package_install"@)),
            crate::json::entry("packages"@, JsonView::Array(crate::fields::strs_json(packages))),
        ],
        ApprovalKindView::NetworkAccess { reason } => seq![
            crate::json::entry("kind"@, JsonView::Str("network_access"@)),
            crate::json::entry("reason"@, JsonView::Str(reason)),
        ],
    }
}

/// The wire form of what a consent card asks for.
pub open spec fn approval_json(k: ApprovalKindView) -> JsonView {
    crate::json::object(approval_fields(k))
}

/// The tag of a tagged value in the form of a list: its first element.
pub open spec fn list_tag(a: Seq<JsonView>) -> Option<Seq<char>> {
    if a.len() > 0 {
        match a[0] {
            JsonView::Str(s) => Some(s),
            _ => None,
        }
    } else {
        None
    }
}

/// The object that a list of values stands for, where each of `names` has one.
pub open spec fn listed(a: Seq<JsonView>, names: Option<Seq<Seq<char>>>) -> Option<JsonView> {
    match names {
        Some(n) => if a.len() == n.len() {
            Some(JsonView::Object(crate::fields::zipped(n, a)))
        } else {
            None
        },
        None => None,
    }
}

/// The names of a list of string slices, or none.
pub open spec fn opt_names(o: Option<Vec<&str>>) -> Option<Seq<Seq<char>>> {
    match o {
        Some(v) => Some(crate::fields::names_of(v@)),
        None => None,
    }
}

/// Reads the tag of a tagged value in the form of a list.
fn read_list_tag(j: &Json) -> (r: Option<String>)
    ensures
        crate::text::opt_text(r) == (match j@ {
            JsonView::Array(a) => list_tag(a),
            _ => None,
        }),
{
    match j {
        Json::Array(a) => {
            proof {
                crate::json::lemma_array_view(*j);
            }
            if a.len() == 0 {
                return None;
            }
            match &a[0] {
                Json::Str(s) => Some(s.clone()),
                _ => None,
            }
        },
        _ => None,
    }
}

/// Reads the object that a list of values stands for.
fn read_listed(j: &Json, names: Option<Vec<&str>>) -> (r: Option<Json>)
    ensures
        crate::fields::opt_view(r) == (match j@ {
            JsonView::Array(a) => listed(a, opt_names(names)),
            _ => None,
        }),
{
    match (j, names) {
        (Json::Array(a), Some(names)) => {
            proof {
                crate::json::lemma_array_view(*j);
            }
            if a.len() == names.len() {
                read_record(j, &names, true)
            } else {
                None
            }
        },
        _ => None,
    }
}

/// The fields of a consent card with a tag, in their order.
pub open spec fn approval_names(tag: Seq<char>) -> Option<Seq<Seq<char>>> {
    if tag == "memory_write"@ {
        Some(seq!["kind"@, "path"@])
    } else if tag == "package_install"@ {
        Some(seq!["kind"@, "packages"@])
    } else if tag == "network_access"@ {
        Some(seq!["kind"@, "reason"@])
    } else {
        None
    }
}

/// The fields of a consent card with a tag, in their order.
fn read_approval_names(tag: &str) -> (r: Option<Vec<&'static str>>)
    ensures
        opt_names(r) == approval_names(tag@),
{
    if same(tag, "memory_write") {
        let r: Vec<&'static str> = vec!["kind", "path"];
        assert(crate::fields::names_of(r@) =~= approval_names(tag@)->0);
        Some(r)
    } else if same(tag, "package_install") {
        let r: Vec<&'static str> = vec!["kind", "packages"];
        assert(crate::fields::names_of(r@) =~= approval_names(tag@)->0);
        Some(r)
    } else if same(tag, "network_access") {
        let r: Vec<&'static str> = vec!["kind", "reason"];
        assert(crate::fields::names_of(r@) =~= approval_names(tag@)->0);
        Some(r)
    } else {
        None
    }
}

/// What a consent card asks for, from its wire form: an object, or a list that
/// begins with the tag.
pub open spec fn approval_of(j: JsonView) -> Option<ApprovalKindView> {
    match j {
        JsonView::Array(a) => match list_tag(a) {
            Some(tag) => match listed(a, approval_names(tag)) {
                Some(o) => approval_in(o),
                None => None,
            },
            None => None,
        },
        _ => approval_in(j),
    }
}

/// What a consent card asks for, from an object.
pub open spec fn approval_in(j: JsonView) -> Option<ApprovalKindView> {
    match crate::fields::str_at(j, "kind"@) {
        Some(kind) => if kind == "memory_write"@ {
            match crate::fields::str_at(j, "path"@) {
                Some(path) => Some(ApprovalKindView::MemoryWrite { path }),
                None => None,
            }
        } else if kind == "package_install"@ {
            match crate::fields::strs_at(j, "packages"@) {
                Some(packages) => Some(ApprovalKindView::PackageInstall { packages }),
                None => None,
            }
        } else if kind == "network_access"@ {
            match crate::fields::str_at(j, "reason"@) {
                Some(reason) => Some(ApprovalKindView::NetworkAccess { reason }),
                None => None,
            }
        } else {
            None
        },
        None => None,
    }
}

/// The content of an approval kind that was read, or not.
pub open spec fn opt_approval(o: Option<ApprovalKind>) -> Option<ApprovalKindView> {
    match o {
        Some(k) => Some(k@),
        None => None,
    }
}

impl ApprovalKind {
    /// The wire form.
    pub fn to_json(&self) -> (r: Json)
        ensures
            r@ == approval_json(self@),
            crate::json::settled(r@),
            crate::json::readable(r@),
    {
        let ghost f = |f: (&str, Json)| crate::json::entry(f.0@, f.1@);
        let fields: Vec<(&str, Json)> = match self {
            ApprovalKind::MemoryWrite { path } => vec![
                ("kind", Json::of_str("memory_write")),
                ("path", Json::Str(path.clone())),
            ],
            ApprovalKind::PackageInstall { packages } => vec![
                ("kind", Json::of_str("package_install")),
                ("packages", strs_to_json(packages)),
            ],
            ApprovalKind::NetworkAccess { reason } => vec![
                ("kind", Json::of_str("network_access")),
                ("reason", Json::Str(reason.clone())),
            ],
        };
        assert(fields@.map_values(f) =~= approval_fields(self@));
        let r = Json::of_fields(fields);
        proof {
            lemma_approval_fits(self@);
            crate::json::lemma_nested_more(
                r@,
                (crate::json::MAX_NESTING - 1) as nat,
                crate::json::MAX_NESTING as nat,
            );
        }
        r
    }

    /// What a consent card asks for, from its wire form.
    pub fn from_json(j: &Json) -> (r: Option<ApprovalKind>)
        ensures
            opt_approval(r) == approval_of(j@),
    {
        match j {
            Json::Array(_) => {
                proof {
                    crate::json::lemma_array_view(*j);
                }
                match read_list_tag(j) {
                    Some(tag) => match read_listed(j, read_approval_names(tag.as_str())) {
                        Some(o) => ApprovalKind::from_object(&o),
                        None => None,
                    },
                    None => None,
                }
            },
            _ => ApprovalKind::from_object(j),
        }
    }

    /// What a consent card asks for, from an object.
    fn from_object(j: &Json) -> (r: Option<ApprovalKind>)
        ensures
            opt_approval(r) == approval_in(j@),
    {
        match read_str(j, "kind") {
            Some(kind) => if same(kind.as_str(), "memory_write") {
                match read_str(j, "path") {
                    Some(path) => Some(ApprovalKind::MemoryWrite { path }),
                    None => None,
                }
            } else if same(kind.as_str(), "package_install") {
                match read_strs(j, "packages") {
                    Some(packages) => Some(ApprovalKind::PackageInstall { packages }),
                    None => None,
                }
            } else if same(kind.as_str(), "network_access") {
                match read_str(j, "reason") {
                    Some(reason) => Some(ApprovalKind::NetworkAccess { reason }),
                    None => None,
                }
            } else {
                None
            },
            None => None,
        }
    }
}

/// The wire form of what a consent card asks for reads back as it was.
pub proof fn approval_round_trip(k: ApprovalKindView)
    ensures
        approval_of(approval_json(k)) == Some(k),
{
    reveal_strlit("kind");
    reveal_strlit("memory_write");
    reveal_strlit("path");
    reveal_strlit("package_install");
    reveal_strlit("packages");
    reveal_strlit("network_access");
    reveal_strlit("reason");
    assert("kind"@.len() == 4);
    assert("memory_write"@.len() == 12);
    assert("path"@.len() == 4);
    assert("package_install"@.len() == 15);
    assert("packages"@.len() == 8);
    assert("network_access"@.len() == 14);
    assert("reason"@.len() == 6);
    assert("kind"@[0] != "path"@[0]);
    let all = approval_fields(k);
    crate::json::lemma_collect_all(all);
    assert(all[0].key == "kind"@ && all[1].key != "kind"@);
    assert(crate::fields::member(approval_json(k), all[0].key) == Some(all[0].value));
    assert(crate::fields::member(approval_json(k), all[1].key) == Some(all[1].value));
    if let ApprovalKindView::PackageInstall { packages } = k {
        crate::fields::lemma_all_strs(packages);
    }
}

/// A usage report reads back as it was written.
pub proof fn usage_round_trip(u: Usage)
    ensures
        usage_of(usage_json(u)) == Some(u),
{
    reveal_strlit("input_tokens");
    reveal_strlit("output_tokens");
    reveal_strlit("total_tokens");
    assert("input_tokens"@.len() == 12);
    assert("output_tokens"@.len() == 13);
    assert("total_tokens"@.len() == 12);
    assert("input_tokens"@[0] != "total_tokens"@[0]);
    let all = usage_fields(u);
    crate::json::lemma_collect_all(all);
    let one = count_field("input_tokens"@, u.input_tokens).len() as int;
    let two = count_field("output_tokens"@, u.output_tokens).len() as int;
    lemma_count_read(u, "input_tokens"@, u.input_tokens, 0);
    lemma_count_read(u, "output_tokens"@, u.output_tokens, one);
    lemma_count_read(u, "total_tokens"@, u.total_tokens, one + two);
}

/// One count of a report reads back.
proof fn lemma_count_read(u: Usage, key: Seq<char>, n: Option<u64>, at: int)
    requires
        crate::json::distinct_keys(usage_fields(u)),
        forall|i: int|
            0 <= i < usage_fields(u).len() && (#[trigger] usage_fields(u)[i]).key == key ==> n
                == Some(usage_fields(u)[i].value->U64_0),
        n matches Some(x) ==> 0 <= at < usage_fields(u).len() && usage_fields(u)[at]
            == crate::json::entry(key, JsonView::U64(x)),
    ensures
        crate::fields::opt_u64_at(usage_json(u), key) == Some(n),
{
    let all = usage_fields(u);
    match n {
        Some(x) => {
            crate::json::lemma_collect_has(all, at);
        },
        None => {
            crate::json::lemma_collect_lacks(all, key);
        },
    }
}

/// The wire form of an event.
pub open spec fn event_json(e: CoreEventView) -> JsonView {
    crate::json::object(event_fields(e))
}

/// The fields of an event on the wire.
pub open spec fn event_fields(e: CoreEventView) -> Seq<crate::json::FieldView> {
    match e {
        CoreEventView::Delta { text } => seq![
            crate::json::entry("type"@, JsonView::Str("delta"@)),
            crate::json::entry("text"@, JsonView::Str(text)),
        ],
        CoreEventView::Reasoning { text } => seq![
            crate::json::entry("type"@, JsonView::Str("reasoning"@)),
            crate::json::entry("text"@, JsonView::Str(text)),
        ],
        CoreEventView::ToolCall { id, name, input } => seq![
            crate::json::entry("type"@, JsonView::Str("tool_call"@)),
            crate::json::entry("id"@, JsonView::Str(id)),
            crate::json::entry("name"@, JsonView::Str(name)),
            crate::json::entry("input"@, input),
        ],
        CoreEventView::ToolResult { id, name, output, is_error } => seq![
            crate::json::entry("type"@, JsonView::Str("tool_result"@)),
            crate::json::entry("id"@, JsonView::Str(id)),
            crate::json::entry("name"@, JsonView::Str(name)),
            crate::json::entry("output"@, JsonView::Str(output)),
            crate::json::entry("is_error"@, JsonView::Bool(is_error)),
        ],
        CoreEventView::Artifact { path, mime_hint } => seq![
            crate::json::entry("type"@, JsonView::Str("artifact"@)),
            crate::json::entry("path"@, JsonView::Str(path)),
            crate::json::entry("mime_hint"@, crate::fields::nullable(mime_hint)),
        ],
        CoreEventView::ApprovalRequest { id, kind, summary } => seq![
            crate::json::entry("type"@, JsonView::Str("approval_request"@)),
            crate::json::entry("id"@, JsonView::Str(id)),
            crate::json::entry("kind"@, approval_json(kind)),
            crate::json::entry("summary"@, JsonView::Str(summary)),
        ],
        CoreEventView::TurnDone { usage } => seq![
            crate::json::entry("type"@, JsonView::Str("turn_done"@)),
            crate::json::entry("usage"@, opt_usage_json(usage)),
        ],
        CoreEventView::Error { kind, message } => seq![
            crate::json::entry("type"@, JsonView::Str("error"@)),
            crate::json::entry("kind"@, JsonView::Str(crate::error::kind_name(kind))),
            crate::json::entry("message"@, JsonView::Str(message)),
        ],
    }
}

/// The fields of an event with a tag, in their order.
pub open spec fn event_names(tag: Seq<char>) -> Option<Seq<Seq<char>>> {
    if tag == "delta"@ {
        Some(seq!["type"@, "text"@])
    } else if tag == "reasoning"@ {
        Some(seq!["type"@, "text"@])
    } else if tag == "tool_call"@ {
        Some(seq!["type"@, "id"@, "name"@, "input"@])
    } else if tag == "tool_result"@ {
        Some(seq!["type"@, "id"@, "name"@, "output"@, "is_error"@])
    } else if tag == "artifact"@ {
        Some(seq!["type"@, "path"@, "mime_hint"@])
    } else if tag == "approval_request"@ {
        Some(seq!["type"@, "id"@, "kind"@, "summary"@])
    } else if tag == "turn_done"@ {
        Some(seq!["type"@, "usage"@])
    } else if tag == "error"@ {
        Some(seq!["type"@, "kind"@, "message"@])
    } else {
        None
    }
}

/// The fields of an event with a tag, in their order.
fn read_event_names(tag: &str) -> (r: Option<Vec<&'static str>>)
    ensures
        opt_names(r) == event_names(tag@),
{
    if same(tag, "delta") {
        let r: Vec<&'static str> = vec!["type", "text"];
        assert(crate::fields::names_of(r@) =~= event_names(tag@)->0);
        Some(r)
    } else if same(tag, "reasoning") {
        let r: Vec<&'static str> = vec!["type", "text"];
        assert(crate::fields::names_of(r@) =~= event_names(tag@)->0);
        Some(r)
    } else if same(tag, "tool_call") {
        let r: Vec<&'static str> = vec!["type", "id", "name", "input"];
        assert(crate::fields::names_of(r@) =~= event_names(tag@)->0);
        Some(r)
    } else if same(tag, "tool_result") {
        let r: Vec<&'static str> = vec!["type", "id", "name", "output", "is_error"];
        assert(crate::fields::names_of(r@) =~= event_names(tag@)->0);
        Some(r)
    } else if same(tag, "artifact") {
        let r: Vec<&'static str> = vec!["type", "path", "mime_hint"];
        assert(crate::fields::names_of(r@) =~= event_names(tag@)->0);
        Some(r)
    } else if same(tag, "approval_request") {
        let r: Vec<&'static str> = vec!["type", "id", "kind", "summary"];
        assert(crate::fields::names_of(r@) =~= event_names(tag@)->0);
        Some(r)
    } else if same(tag, "turn_done") {
        let r: Vec<&'static str> = vec!["type", "usage"];
        assert(crate::fields::names_of(r@) =~= event_names(tag@)->0);
        Some(r)
    } else if same(tag, "error") {
        let r: Vec<&'static str> = vec!["type", "kind", "message"];
        assert(crate::fields::names_of(r@) =~= event_names(tag@)->0);
        Some(r)
    } else {
        None
    }
}

/// The event that a value stands for: an object, or a list that begins with the
/// tag.
pub open spec fn event_of(j: JsonView) -> Option<CoreEventView> {
    match j {
        JsonView::Array(a) => match list_tag(a) {
            Some(tag) => match listed(a, event_names(tag)) {
                Some(o) => event_in(o),
                None => None,
            },
            None => None,
        },
        _ => event_in(j),
    }
}

/// The event that an object stands for. Fields that are not known are ignored.
pub open spec fn event_in(j: JsonView) -> Option<CoreEventView> {
    match crate::fields::str_at(j, "type"@) {
        Some(tag) => if tag == "delta"@ {
            match (crate::fields::str_at(j, "text"@)) {
                Some(text) => Some(CoreEventView::Delta { text }),
                _ => None,
            }
        } else if tag == "reasoning"@ {
            match (crate::fields::str_at(j, "text"@)) {
                Some(text) => Some(CoreEventView::Reasoning { text }),
                _ => None,
            }
        } else if tag == "tool_call"@ {
            match (crate::fields::str_at(j, "id"@), crate::fields::str_at(j, "name"@), crate::fields::member(j, "input"@)) {
                (Some(id), Some(name), Some(input)) => Some(CoreEventView::ToolCall { id, name, input }),
                _ => None,
            }
        } else if tag == "tool_result"@ {
            match (crate::fields::str_at(j, "id"@), crate::fields::str_at(j, "name"@), crate::fields::str_at(j, "output"@), crate::fields::bool_at(j, "is_error"@)) {
                (Some(id), Some(name), Some(output), Some(is_error)) => Some(CoreEventView::ToolResult { id, name, output, is_error }),
                _ => None,
            }
        } else if tag == "artifact"@ {
            match (crate::fields::str_at(j, "path"@), crate::fields::opt_str_at(j, "mime_hint"@)) {
                (Some(path), Some(mime_hint)) => Some(CoreEventView::Artifact { path, mime_hint }),
                _ => None,
            }
        } else if tag == "approval_request"@ {
            match (crate::fields::str_at(j, "id"@), approval_at(j, "kind"@), crate::fields::str_at(j, "summary"@)) {
                (Some(id), Some(kind), Some(summary)) => Some(CoreEventView::ApprovalRequest { id, kind, summary }),
                _ => None,
            }
        } else if tag == "turn_done"@ {
            match (opt_usage_at(j, "usage"@)) {
                Some(usage) => Some(CoreEventView::TurnDone { usage }),
                _ => None,
            }
        } else if tag == "error"@ {
            match (kind_at(j, "kind"@), crate::fields::str_at(j, "message"@)) {
                (Some(kind), Some(message)) => Some(CoreEventView::Error { kind, message }),
                _ => None,
            }
        } else {
            None
        },
        None => None,
    }
}

/// What a consent card asks for, in a field.
pub open spec fn approval_at(j: JsonView, key: Seq<char>) -> Option<ApprovalKindView> {
    match crate::fields::member(j, key) {
        Some(x) => approval_of(x),
        None => None,
    }
}

/// The failure category in a field.
pub open spec fn kind_at(j: JsonView, key: Seq<char>) -> Option<ApiErrorKind> {
    match crate::fields::str_at(j, key) {
        Some(s) => crate::error::kind_named(s),
        None => None,
    }
}

/// The content of an event that was read, or not.
pub open spec fn opt_event(o: Option<CoreEvent>) -> Option<CoreEventView> {
    match o {
        Some(e) => Some(e@),
        None => None,
    }
}

/// Whether the text of an event reads back as the event: a tool call's input
/// holds each key once, holds integers only and is not nested too deep.
pub open spec fn wire_exact(e: CoreEventView) -> bool {
    e matches CoreEventView::ToolCall { input, .. } ==> fits_inside(input)
}

/// The event that a text stands for.
pub open spec fn event_read(text: Seq<char>) -> Option<CoreEventView> {
    match crate::json::parsed(text) {
        Ok(j) => event_of(j),
        Err(_) => None,
    }
}

/// What consent a field asks for.
fn read_approval(j: &Json, key: &str) -> (r: Option<ApprovalKind>)
    ensures
        opt_approval(r) == approval_at(j@, key@),
{
    match j.get(key) {
        Some(x) => ApprovalKind::from_json(x),
        None => None,
    }
}

/// The failure category in a field.
fn read_kind(j: &Json, key: &str) -> (r: Option<ApiErrorKind>)
    ensures
        r == kind_at(j@, key@),
{
    match read_str(j, key) {
        Some(s) => ApiErrorKind::named(s.as_str()),
        None => None,
    }
}

/// The optional usage report in a field.
pub fn read_opt_usage(j: &Json, key: &str) -> (r: Option<Option<Usage>>)
    ensures
        r == opt_usage_at(j@, key@),
{
    match j.get(key) {
        None => Some(None),
        Some(Json::Null) => Some(None),
        Some(x) => match Usage::from_json(x) {
            Some(u) => Some(Some(u)),
            None => None,
        },
    }
}

/// The value in a field.
fn read_member(j: &Json, key: &str) -> (r: Option<Json>)
    ensures
        r is Some <==> crate::fields::member(j@, key@) is Some,
        r matches Some(x) ==> crate::fields::member(j@, key@) == Some(x@),
{
    match j.get(key) {
        Some(x) => Some(x.copy()),
        None => None,
    }
}

/// The tags of events differ.
proof fn lemma_tags()
    ensures
        "delta"@ != "reasoning"@,
        "delta"@ != "tool_call"@,
        "delta"@ != "tool_result"@,
        "delta"@ != "artifact"@,
        "delta"@ != "approval_request"@,
        "delta"@ != "turn_done"@,
        "delta"@ != "error"@,
        "reasoning"@ != "tool_call"@,
        "reasoning"@ != "tool_result"@,
        "reasoning"@ != "artifact"@,
        "reasoning"@ != "approval_request"@,
        "reasoning"@ != "turn_done"@,
        "reasoning"@ != "error"@,
        "tool_call"@ != "tool_result"@,
        "tool_call"@ != "artifact"@,
        "tool_call"@ != "approval_request"@,
        "tool_call"@ != "turn_done"@,
        "tool_call"@ != "error"@,
        "tool_result"@ != "artifact"@,
        "tool_result"@ != "approval_request"@,
        "tool_result"@ != "turn_done"@,
        "tool_result"@ != "error"@,
        "artifact"@ != "approval_request"@,
        "artifact"@ != "turn_done"@,
        "artifact"@ != "error"@,
        "approval_request"@ != "turn_done"@,
        "approval_request"@ != "error"@,
        "turn_done"@ != "error"@,
{
    reveal_strlit("delta");
    reveal_strlit("reasoning");
    reveal_strlit("tool_call");
    reveal_strlit("tool_result");
    reveal_strlit("artifact");
    reveal_strlit("approval_request");
    reveal_strlit("turn_done");
    reveal_strlit("error");
    assert("delta"@.len() == 5);
    assert("reasoning"@.len() == 9);
    assert("tool_call"@.len() == 9);
    assert("tool_result"@.len() == 11);
    assert("artifact"@.len() == 8);
    assert("approval_request"@.len() == 16);
    assert("turn_done"@.len() == 9);
    assert("error"@.len() == 5);
    assert("delta"@[0] != "error"@[0]);
    assert("reasoning"@[0] != "tool_call"@[0]);
    assert("reasoning"@[0] != "turn_done"@[0]);
    assert("tool_call"@[1] != "turn_done"@[1]);
}

/// The keys of an event differ.
proof fn lemma_event_keys(e: CoreEventView)
    ensures
        crate::json::distinct_keys(event_fields(e)),
{
    match e {
        CoreEventView::Delta { .. } => {
            reveal_strlit("type");
            reveal_strlit("text");
            assert("type"@.len() == 4);
            assert("text"@.len() == 4);
            assert("type"@[1] != "text"@[1]);
        },
        CoreEventView::Reasoning { .. } => {
            reveal_strlit("type");
            reveal_strlit("text");
            assert("type"@.len() == 4);
            assert("text"@.len() == 4);
            assert("type"@[1] != "text"@[1]);
        },
        CoreEventView::ToolCall { .. } => {
            reveal_strlit("type");
            reveal_strlit("id");
            reveal_strlit("name");
            reveal_strlit("input");
            assert("type"@.len() == 4);
            assert("id"@.len() == 2);
            assert("name"@.len() == 4);
            assert("input"@.len() == 5);
            assert("type"@[0] != "name"@[0]);
        },
        CoreEventView::ToolResult { .. } => {
            reveal_strlit("type");
            reveal_strlit("id");
            reveal_strlit("name");
            reveal_strlit("output");
            reveal_strlit("is_error");
            assert("type"@.len() == 4);
            assert("id"@.len() == 2);
            assert("name"@.len() == 4);
            assert("output"@.len() == 6);
            assert("is_error"@.len() == 8);
            assert("type"@[0] != "name"@[0]);
        },
        CoreEventView::Artifact { .. } => {
            reveal_strlit("type");
            reveal_strlit("path");
            reveal_strlit("mime_hint");
            assert("type"@.len() == 4);
            assert("path"@.len() == 4);
            assert("mime_hint"@.len() == 9);
            assert("type"@[0] != "path"@[0]);
        },
        CoreEventView::ApprovalRequest { .. } => {
            reveal_strlit("type");
            reveal_strlit("id");
            reveal_strlit("kind");
            reveal_strlit("summary");
            assert("type"@.len() == 4);
            assert("id"@.len() == 2);
            assert("kind"@.len() == 4);
            assert("summary"@.len() == 7);
            assert("type"@[0] != "kind"@[0]);
        },
        CoreEventView::TurnDone { .. } => {
            reveal_strlit("type");
            reveal_strlit("usage");
            assert("type"@.len() == 4);
            assert("usage"@.len() == 5);
        },
        CoreEventView::Error { .. } => {
            reveal_strlit("type");
            reveal_strlit("kind");
            reveal_strlit("message");
            assert("type"@.len() == 4);
            assert("kind"@.len() == 4);
            assert("message"@.len() == 7);
            assert("type"@[0] != "kind"@[0]);
        },
    }
}

/// An event reads back from its wire form as it was.
pub proof fn event_round_trip(e: CoreEventView)
    ensures
        event_of(event_json(e)) == Some(e),
{
    let all = event_fields(e);
    let j = event_json(e);
    lemma_tags();
    lemma_event_keys(e);
    crate::json::lemma_collect_all(all);
    assert forall|i: int| 0 <= i < all.len() implies crate::fields::member(
        j,
        (#[trigger] all[i]).key,
    ) == Some(all[i].value) by {}
    assert(all[0] == crate::json::entry("type"@, JsonView::Str(crate::events::name_of_event(e))));
    assert(crate::fields::str_at(j, "type"@) == Some(crate::events::name_of_event(e)));
    match e {
        CoreEventView::Delta { text } => {
            assert(all[1].key == "text"@);
        },
        CoreEventView::Reasoning { text } => {
            assert(all[1].key == "text"@);
        },
        CoreEventView::ToolCall { id, name, input } => {
            assert(all[1].key == "id"@);
            assert(all[2].key == "name"@);
            assert(all[3].key == "input"@);
        },
        CoreEventView::ToolResult { id, name, output, is_error } => {
            assert(all[1].key == "id"@);
            assert(all[2].key == "name"@);
            assert(all[3].key == "output"@);
            assert(all[4].key == "is_error"@);
        },
        CoreEventView::Artifact { path, mime_hint } => {
            assert(all[1].key == "path"@);
            assert(all[2].key == "mime_hint"@);
        },
        CoreEventView::ApprovalRequest { id, kind, summary } => {
            assert(all[1].key == "id"@);
            assert(all[2].key == "kind"@);
            assert(all[3].key == "summary"@);
            approval_round_trip(kind);
        },
        CoreEventView::TurnDone { usage } => {
            assert(all[1].key == "usage"@);
            if let Some(u) = usage {
                usage_round_trip(u);
            }
        },
        CoreEventView::Error { kind, message } => {
            assert(all[1].key == "kind"@);
            assert(all[2].key == "message"@);
            crate::error::kind_names_are_distinct(kind);
        },
    }
}

impl CoreEvent {
    /// The wire form.
    pub fn to_json(&self) -> (r: Json)
        ensures
            r@ == event_json(self@),
            wire_exact(self@) ==> crate::json::settled(r@) && crate::json::readable(r@),
    {
        let ghost f = |f: (&str, Json)| crate::json::entry(f.0@, f.1@);
        let fields: Vec<(&str, Json)> = match self {
            CoreEvent::Delta { text } => {
                let v: Vec<(&str, Json)> = vec![
                    ("type", Json::of_str("delta")),
                    ("text", Json::Str(text.clone())),
                ];
                assert(v@.map_values(f) =~= event_fields(self@));
                v
            },
            CoreEvent::Reasoning { text } => {
                let v: Vec<(&str, Json)> = vec![
                    ("type", Json::of_str("reasoning")),
                    ("text", Json::Str(text.clone())),
                ];
                assert(v@.map_values(f) =~= event_fields(self@));
                v
            },
            CoreEvent::ToolCall { id, name, input } => {
                let v: Vec<(&str, Json)> = vec![
                    ("type", Json::of_str("tool_call")),
                    ("id", Json::Str(id.clone())),
                    ("name", Json::Str(name.clone())),
                    ("input", input.copy()),
                ];
                assert(v@.map_values(f) =~= event_fields(self@));
                v
            },
            CoreEvent::ToolResult { id, name, output, is_error } => {
                let v: Vec<(&str, Json)> = vec![
                    ("type", Json::of_str("tool_result")),
                    ("id", Json::Str(id.clone())),
                    ("name", Json::Str(name.clone())),
                    ("output", Json::Str(output.clone())),
                    ("is_error", Json::Bool(*is_error)),
                ];
                assert(v@.map_values(f) =~= event_fields(self@));
                v
            },
            CoreEvent::Artifact { path, mime_hint } => {
                let v: Vec<(&str, Json)> = vec![
                    ("type", Json::of_str("artifact")),
                    ("path", Json::Str(path.clone())),
                    ("mime_hint", opt_to_json(mime_hint)),
                ];
                assert(v@.map_values(f) =~= event_fields(self@));
                v
            },
            CoreEvent::ApprovalRequest { id, kind, summary } => {
                let v: Vec<(&str, Json)> = vec![
                    ("type", Json::of_str("approval_request")),
                    ("id", Json::Str(id.clone())),
                    ("kind", kind.to_json()),
                    ("summary", Json::Str(summary.clone())),
                ];
                assert(v@.map_values(f) =~= event_fields(self@));
                v
            },
            CoreEvent::TurnDone { usage } => {
                let v: Vec<(&str, Json)> = vec![
                    ("type", Json::of_str("turn_done")),
                    ("usage", opt_usage_to_json(usage)),
                ];
                assert(v@.map_values(f) =~= event_fields(self@));
                v
            },
            CoreEvent::Error { kind, message } => {
                let v: Vec<(&str, Json)> = vec![
                    ("type", Json::of_str("error")),
                    ("kind", kind.to_json()),
                    ("message", Json::Str(message.clone())),
                ];
                assert(v@.map_values(f) =~= event_fields(self@));
                v
            },
        };
        let r = Json::of_fields(fields);
        proof {
            if wire_exact(self@) {
                let all = event_fields(self@);
                match self@ {
                    CoreEventView::ApprovalRequest { kind, .. } => {
                        lemma_approval_fits(kind);
                    },
                    CoreEventView::TurnDone { usage: Some(u) } => {
                        lemma_usage_fits(u);
                    },
                    _ => {},
                }
                assert forall|i: int| 0 <= i < all.len() implies fits_inside(
                    (#[trigger] all[i]).value,
                ) by {}
                lemma_object_fits(all);
            }
        }
        r
    }

    /// The event that a value stands for.
    pub fn from_json(j: &Json) -> (r: Option<CoreEvent>)
        ensures
            opt_event(r) == event_of(j@),
    {
        match j {
            Json::Array(_) => {
                proof {
                    crate::json::lemma_array_view(*j);
                }
                match read_list_tag(j) {
                    Some(tag) => match read_listed(j, read_event_names(tag.as_str())) {
                        Some(o) => CoreEvent::from_object(&o),
                        None => None,
                    },
                    None => None,
                }
            },
            _ => CoreEvent::from_object(j),
        }
    }

    /// The event that an object stands for.
    fn from_object(j: &Json) -> (r: Option<CoreEvent>)
        ensures
            opt_event(r) == event_in(j@),
    {
        match read_str(j, "type") {
            Some(tag) => if same(tag.as_str(), "delta") {
                match (read_str(j, "text")) {
                    Some(text) => Some(CoreEvent::Delta { text }),
                    _ => None,
                }
            } else if same(tag.as_str(), "reasoning") {
                match (read_str(j, "text")) {
                    Some(text) => Some(CoreEvent::Reasoning { text }),
                    _ => None,
                }
            } else if same(tag.as_str(), "tool_call") {
                match (read_str(j, "id"), read_str(j, "name"), read_member(j, "input")) {
                    (Some(id), Some(name), Some(input)) => Some(CoreEvent::ToolCall { id, name, input }),
                    _ => None,
                }
            } else if same(tag.as_str(), "tool_result") {
                match (read_str(j, "id"), read_str(j, "name"), read_str(j, "output"), read_bool(j, "is_error")) {
                    (Some(id), Some(name), Some(output), Some(is_error)) => Some(CoreEvent::ToolResult { id, name, output, is_error }),
                    _ => None,
                }
            } else if same(tag.as_str(), "artifact") {
                match (read_str(j, "path"), read_opt_str(j, "mime_hint")) {
                    (Some(path), Some(mime_hint)) => Some(CoreEvent::Artifact { path, mime_hint }),
                    _ => None,
                }
            } else if same(tag.as_str(), "approval_request") {
                match (read_str(j, "id"), read_approval(j, "kind"), read_str(j, "summary")) {
                    (Some(id), Some(kind), Some(summary)) => Some(CoreEvent::ApprovalRequest { id, kind, summary }),
                    _ => None,
                }
            } else if same(tag.as_str(), "turn_done") {
                match (read_opt_usage(j, "usage")) {
                    Some(usage) => Some(CoreEvent::TurnDone { usage }),
                    _ => None,
                }
            } else if same(tag.as_str(), "error") {
                match (read_kind(j, "kind"), read_str(j, "message")) {
                    (Some(kind), Some(message)) => Some(CoreEvent::Error { kind, message }),
                    _ => None,
                }
            } else {
                None
            },
            None => None,
        }
    }

    /// The text of the event on the wire. It reads back as the event.
    pub fn to_text(&self) -> (r: String)
        ensures
            r@ == crate::json::tree_text(crate::json::settle(event_json(self@))),
            wire_exact(self@) ==> event_read(r@) == Some(self@),
    {
        let j = self.to_json();
        let r = j.to_text();
        proof {
            if wire_exact(self@) {
                crate::json::lemma_settle(j@);
                event_round_trip(self@);
            }
        }
        r
    }

    /// The event that a text stands for.
    pub fn from_text(text: &str) -> (r: Option<CoreEvent>)
        ensures
            opt_event(r) == event_read(text@),
    {
        match Json::parse(text) {
            Ok(j) => CoreEvent::from_json(&j),
            Err(_) => None,
        }
    }
}

/// A usage report says its counts, each under its own name, and leaves out what
/// it does not know.
pub proof fn report_says_its_counts(u: Usage)
    ensures
        crate::fields::opt_u64_at(usage_json(u), "input_tokens"@) == Some(u.input_tokens),
        crate::fields::opt_u64_at(usage_json(u), "output_tokens"@) == Some(u.output_tokens),
        crate::fields::opt_u64_at(usage_json(u), "total_tokens"@) == Some(u.total_tokens),
{
    reveal_strlit("input_tokens");
    reveal_strlit("output_tokens");
    reveal_strlit("total_tokens");
    assert("input_tokens"@.len() == 12);
    assert("output_tokens"@.len() == 13);
    assert("total_tokens"@.len() == 12);
    assert("input_tokens"@[0] != "total_tokens"@[0]);
    let all = usage_fields(u);
    crate::json::lemma_collect_all(all);
    let one = count_field("input_tokens"@, u.input_tokens).len() as int;
    let two = count_field("output_tokens"@, u.output_tokens).len() as int;
    lemma_count_read(u, "input_tokens"@, u.input_tokens, 0);
    lemma_count_read(u, "output_tokens"@, u.output_tokens, one);
    lemma_count_read(u, "total_tokens"@, u.total_tokens, one + two);
}

/// A consent card says what it asks for.
pub proof fn card_says_what_it_asks_for(k: ApprovalKindView)
    ensures
        ({
            let j = approval_json(k);
            match k {
                ApprovalKindView::MemoryWrite { path } => crate::fields::str_at(j, "kind"@) == Some(
                    "memory_write"@,
                ) && crate::fields::str_at(j, "path"@) == Some(path),
                ApprovalKindView::PackageInstall { packages } => crate::fields::str_at(j, "kind"@)
                    == Some("package_install"@) && crate::fields::strs_at(j, "packages"@) == Some(
                    packages,
                ),
                ApprovalKindView::NetworkAccess { reason } => crate::fields::str_at(j, "kind"@)
                    == Some("network_access"@) && crate::fields::str_at(j, "reason"@) == Some(
                    reason,
                ),
            }
        }),
{
    reveal_strlit("kind");
    reveal_strlit("memory_write");
    reveal_strlit("path");
    reveal_strlit("package_install");
    reveal_strlit("packages");
    reveal_strlit("network_access");
    reveal_strlit("reason");
    assert("kind"@.len() == 4);
    assert("memory_write"@.len() == 12);
    assert("path"@.len() == 4);
    assert("package_install"@.len() == 15);
    assert("packages"@.len() == 8);
    assert("network_access"@.len() == 14);
    assert("reason"@.len() == 6);
    assert("kind"@[0] != "path"@[0]);
    let all = approval_fields(k);
    crate::json::lemma_collect_all(all);
    assert(all[0].key == "kind"@ && all[1].key != "kind"@);
    assert(crate::fields::member(approval_json(k), all[0].key) == Some(all[0].value));
    assert(crate::fields::member(approval_json(k), all[1].key) == Some(all[1].value));
    if let ApprovalKindView::PackageInstall { packages } = k {
        crate::fields::lemma_all_strs(packages);
    }
}

/// An event on the wire says what happened: its name, and what belongs to it,
/// each under its own name.
pub proof fn event_says_what_happened(e: CoreEventView)
    ensures
        ({
            let j = event_json(e);
            let said = |name: Seq<char>, key: Seq<char>, text: Seq<char>|
                crate::fields::str_at(j, "type"@) == Some(name) && crate::fields::str_at(j, key)
                    == Some(text);
            match e {
                CoreEventView::Delta { text } => said("delta"@, "text"@, text),
                CoreEventView::Reasoning { text } => said("reasoning"@, "text"@, text),
                CoreEventView::ToolCall { id, name, input } => said("tool_call"@, "id"@, id)
                    && said("tool_call"@, "name"@, name) && crate::fields::member(j, "input"@)
                    == Some(input),
                CoreEventView::ToolResult { id, name, output, is_error } => said(
                    "tool_result"@,
                    "id"@,
                    id,
                ) && said("tool_result"@, "name"@, name) && said("tool_result"@, "output"@, output)
                    && crate::fields::bool_at(j, "is_error"@) == Some(is_error),
                CoreEventView::Artifact { path, mime_hint } => said("artifact"@, "path"@, path)
                    && crate::fields::str_at(j, "mime_hint"@) == mime_hint,
                CoreEventView::ApprovalRequest { id, kind, summary } => said(
                    "approval_request"@,
                    "id"@,
                    id,
                ) && said("approval_request"@, "summary"@, summary) && crate::fields::member(
                    j,
                    "kind"@,
                ) == Some(approval_json(kind)),
                CoreEventView::TurnDone { usage } => crate::fields::str_at(j, "type"@) == Some(
                    "turn_done"@,
                ) && crate::fields::member(j, "usage"@) == Some(
                    match usage {
                        Some(u) => usage_json(u),
                        None => JsonView::Null,
                    },
                ),
                CoreEventView::Error { kind, message } => said("error"@, "message"@, message)
                    && said("error"@, "kind"@, crate::error::kind_name(kind)),
            }
        }),
{
    let all = event_fields(e);
    let j = event_json(e);
    lemma_event_keys(e);
    crate::json::lemma_collect_all(all);
    assert forall|i: int| 0 <= i < all.len() implies crate::fields::member(
        j,
        (#[trigger] all[i]).key,
    ) == Some(all[i].value) by {}
    assert(all[0].key == "type"@);
    assert(crate::fields::member(j, all[1].key) == Some(all[1].value));
    if all.len() > 2 {
        assert(crate::fields::member(j, all[2].key) == Some(all[2].value));
    }
    if all.len() > 3 {
        assert(crate::fields::member(j, all[3].key) == Some(all[3].value));
    }
    if all.len() > 4 {
        assert(crate::fields::member(j, all[4].key) == Some(all[4].value));
    }
}

} // verus!
