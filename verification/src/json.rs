//! JSON values as the library reads and writes them.
//!
//! The text form belongs to `serde_json`: a text is parsed into its `Value`,
//! which is then opened level by level into a [`Json`], and the way back is the
//! same. Everything the library reads out of a value, or puts into one, is
//! stated over [`JsonView`].

use serde_json::{Number, Value};
use vstd::prelude::*;

use crate::text::same;

verus! {

/// `serde_json::Number`, carried through as it is.
#[verifier::external_type_specification]
#[verifier::external_body]
pub struct ExNumber(serde_json::Number);

/// `serde_json::Value`, opened and built one level at a time.
#[verifier::external_type_specification]
#[verifier::external_body]
pub struct ExValue(serde_json::Value);

/// A JSON value.
#[derive(Debug, Eq)]
pub enum Json {
    Null,
    Bool(bool),
    Number(Number),
    Str(String),
    Array(Vec<Json>),
    Object(Vec<Field>),
}

/// One field of an object.
#[derive(Debug, PartialEq, Eq)]
pub struct Field {
    pub key: String,
    pub value: Json,
}

/// The mathematical content of a [`Field`].
#[verifier::ext_equal]
pub struct FieldView {
    pub key: Seq<char>,
    pub value: JsonView,
}

/// The mathematical content of a [`Json`].
#[verifier::ext_equal]
pub enum JsonView {
    Null,
    Bool(bool),
    /// An unsigned integer.
    U64(u64),
    /// Any other number.
    Number(Number),
    Str(Seq<char>),
    Array(Seq<JsonView>),
    Object(Seq<FieldView>),
}

/// The content of a number.
pub open spec fn number_view(n: Number) -> JsonView {
    match number_u64(n) {
        Some(u) => JsonView::U64(u),
        None => JsonView::Number(n),
    }
}

/// The content of a value.
pub open spec fn content(j: Json) -> JsonView
    decreases j,
{
    match j {
        Json::Null => JsonView::Null,
        Json::Bool(b) => JsonView::Bool(b),
        Json::Number(n) => number_view(n),
        Json::Str(s) => JsonView::Str(s@),
        Json::Array(v) => JsonView::Array(contents(v@)),
        Json::Object(v) => JsonView::Object(field_contents(v@)),
    }
}

/// The contents of a list of values.
pub open spec fn contents(v: Seq<Json>) -> Seq<JsonView>
    decreases v,
{
    if v.len() == 0 {
        seq![]
    } else {
        contents(v.subrange(0, v.len() - 1)).push(content(v[v.len() - 1]))
    }
}

/// The contents of a list of fields.
pub open spec fn field_contents(v: Seq<Field>) -> Seq<FieldView>
    decreases v,
{
    if v.len() == 0 {
        seq![]
    } else {
        field_contents(v.subrange(0, v.len() - 1)).push(
            entry(v[v.len() - 1].key@, content(v[v.len() - 1].value)),
        )
    }
}

impl View for Json {
    type V = JsonView;

    open spec fn view(&self) -> JsonView {
        content(*self)
    }
}

/// The field `key` with the value `value`.
pub open spec fn entry(key: Seq<char>, value: JsonView) -> FieldView {
    FieldView { key: key, value: value }
}

/// The contents of a list of values.
pub open spec fn views(v: Seq<Json>) -> Seq<JsonView> {
    v.map_values(|j: Json| j@)
}

/// The contents of a list of fields.
pub open spec fn field_views(v: Seq<Field>) -> Seq<FieldView> {
    v.map_values(|f: Field| entry(f.key@, f.value@))
}

/// [`contents`], one value at a time.
proof fn lemma_contents(v: Seq<Json>)
    ensures
        contents(v) == views(v),
    decreases v.len(),
{
    if v.len() > 0 {
        lemma_contents(v.subrange(0, v.len() - 1));
    }
    assert(contents(v) =~= views(v));
}

/// [`field_contents`], one field at a time.
proof fn lemma_field_contents(v: Seq<Field>)
    ensures
        field_contents(v) == field_views(v),
    decreases v.len(),
{
    if v.len() > 0 {
        lemma_field_contents(v.subrange(0, v.len() - 1));
    }
    assert(field_contents(v) =~= field_views(v));
}

/// The content of an array.
pub proof fn lemma_array_view(j: Json)
    requires
        j is Array,
    ensures
        j@ == JsonView::Array(views(j->Array_0@)),
{
    lemma_contents(j->Array_0@);
}

/// The content of an object.
pub proof fn lemma_object_view(j: Json)
    requires
        j is Object,
    ensures
        j@ == JsonView::Object(field_views(j->Object_0@)),
{
    lemma_field_contents(j->Object_0@);
}

/// What the first field named `key` holds.
pub open spec fn get(o: Seq<FieldView>, key: Seq<char>) -> Option<JsonView>
    decreases o.len(),
{
    if o.len() == 0 {
        None
    } else if o[0].key == key {
        Some(o[0].value)
    } else {
        get(o.skip(1), key)
    }
}

/// `o` with the field `key` set to `value`: at its place where it has one, else
/// behind the others.
pub open spec fn put(
    o: Seq<FieldView>,
    key: Seq<char>,
    value: JsonView,
) -> Seq<FieldView>
    decreases o.len(),
{
    if o.len() == 0 {
        seq![entry(key, value)]
    } else if o[0].key == key {
        seq![entry(key, value)] + o.skip(1)
    } else {
        seq![o[0]] + put(o.skip(1), key, value)
    }
}

/// The fields of `fields`, one after the other put into an empty object.
pub open spec fn collect(fields: Seq<FieldView>) -> Seq<FieldView>
    decreases fields.len(),
{
    if fields.len() == 0 {
        seq![]
    } else {
        put(collect(fields.drop_last()), fields.last().key, fields.last().value)
    }
}

/// The object with these fields.
pub open spec fn object(fields: Seq<FieldView>) -> JsonView {
    JsonView::Object(collect(fields))
}

/// Whether the keys of a list of fields differ.
pub open spec fn distinct_keys(fields: Seq<FieldView>) -> bool {
    forall|i: int, k: int|
        0 <= i < k < fields.len() ==> (#[trigger] fields[i]).key != (#[trigger] fields[k]).key
}

/// Whether every object inside `j` holds each key once.
pub open spec fn settled(j: JsonView) -> bool
    decreases j,
{
    match j {
        JsonView::Array(a) => forall|i: int| 0 <= i < a.len() ==> settled(#[trigger] a[i]),
        JsonView::Object(o) => distinct_keys(o) && forall|i: int|
            0 <= i < o.len() ==> settled((#[trigger] o[i]).value),
        _ => true,
    }
}

/// `j` with each key of every object held once, with the value that came last.
pub open spec fn settle(j: JsonView) -> JsonView
    decreases j,
{
    match j {
        JsonView::Array(a) => JsonView::Array(settle_all(a)),
        JsonView::Object(o) => object(settle_fields(o)),
        _ => j,
    }
}

/// [`settle`] of every value of a list.
pub open spec fn settle_all(a: Seq<JsonView>) -> Seq<JsonView>
    decreases a,
{
    if a.len() == 0 {
        a
    } else {
        settle_all(a.subrange(0, a.len() - 1)).push(settle(a[a.len() - 1]))
    }
}

/// [`settle`] of every value of a list of fields.
pub open spec fn settle_fields(o: Seq<FieldView>) -> Seq<FieldView>
    decreases o,
{
    if o.len() == 0 {
        o
    } else {
        settle_fields(o.subrange(0, o.len() - 1)).push(
            entry(o[o.len() - 1].key, settle(o[o.len() - 1].value)),
        )
    }
}

/// [`settle_all`], one value at a time.
pub proof fn lemma_settle_all(a: Seq<JsonView>)
    ensures
        settle_all(a).len() == a.len(),
        forall|i: int| 0 <= i < a.len() ==> #[trigger] settle_all(a)[i] == settle(a[i]),
    decreases a.len(),
{
    if a.len() > 0 {
        lemma_settle_all(a.subrange(0, a.len() - 1));
    }
}

/// [`settle_fields`], one field at a time.
pub proof fn lemma_settle_fields(o: Seq<FieldView>)
    ensures
        settle_fields(o).len() == o.len(),
        forall|i: int|
            0 <= i < o.len() ==> #[trigger] settle_fields(o)[i] == entry(
                o[i].key,
                settle(o[i].value),
            ),
    decreases o.len(),
{
    if o.len() > 0 {
        lemma_settle_fields(o.subrange(0, o.len() - 1));
    }
}

/// How deep arrays and objects are nested in `j`.
pub open spec fn nested_within(j: JsonView, depth: nat) -> bool
    decreases j,
{
    match j {
        JsonView::Array(a) => depth > 0 && forall|i: int|
            0 <= i < a.len() ==> nested_within(#[trigger] a[i], (depth - 1) as nat),
        JsonView::Object(o) => depth > 0 && forall|i: int|
            0 <= i < o.len() ==> nested_within((#[trigger] o[i]).value, (depth - 1) as nat),
        _ => true,
    }
}

/// Whether every number in `j` is an integer.
pub open spec fn whole_numbers(j: JsonView) -> bool
    decreases j,
{
    match j {
        JsonView::Number(n) => !number_is_float(n),
        JsonView::Array(a) => forall|i: int| 0 <= i < a.len() ==> whole_numbers(#[trigger] a[i]),
        JsonView::Object(o) => forall|i: int|
            0 <= i < o.len() ==> whole_numbers((#[trigger] o[i]).value),
        _ => true,
    }
}

/// How many levels of nesting the parser takes.
pub const MAX_NESTING: u64 = 127;

/// Whether the text of `j` reads back as `j`: a number with a fraction or an
/// exponent may come back changed in its last digit, and the parser refuses
/// what is nested too deep.
pub open spec fn readable(j: JsonView) -> bool {
    nested_within(j, MAX_NESTING as nat) && whole_numbers(j)
}

/// What `==` says of two numbers.
pub uninterp spec fn numbers_equal(a: Number, b: Number) -> bool;

/// What `Number::is_f64` says of a number.
pub uninterp spec fn number_is_float(n: Number) -> bool;

/// What `Number::as_u64` gives.
pub uninterp spec fn number_u64(n: Number) -> Option<u64>;

/// What `serde_json::from_str` makes of a text: a value, or the message of its
/// error.
pub uninterp spec fn json_read(text: Seq<char>) -> Result<Value, Seq<char>>;

/// What `toml::from_str` makes of a text: a value, or the message of its error.
/// A date is an object with one private field.
pub uninterp spec fn toml_read(text: Seq<char>) -> Result<Value, Seq<char>>;

/// What is inside a `serde_json::Value`, to every depth.
pub uninterp spec fn value_tree(v: Value) -> JsonView;

/// What `Value::to_string` writes of a value with the content `j`.
pub uninterp spec fn tree_text(j: JsonView) -> Seq<char>;

/// What the alternate form `{:#}` of a value with the content `j` writes.
pub uninterp spec fn tree_pretty(j: JsonView) -> Seq<char>;

/// The outcome of a parse that gives `v`.
pub open spec fn value_read(v: Value) -> Result<Value, Seq<char>> {
    Ok(v)
}

/// The outcome of a parse that fails with the message `e`.
pub open spec fn value_refused(e: Seq<char>) -> Result<Value, Seq<char>> {
    Err(e)
}

/// What a text parses to: its content, or the parser's message.
pub open spec fn parsed(text: Seq<char>) -> Result<JsonView, Seq<char>> {
    match json_read(text) {
        Ok(v) => Ok(value_tree(v)),
        Err(e) => Err(e),
    }
}

/// What a TOML text parses to: its content, or the parser's message.
pub open spec fn toml_parsed(text: Seq<char>) -> Result<JsonView, Seq<char>> {
    match toml_read(text) {
        Ok(v) => Ok(value_tree(v)),
        Err(e) => Err(e),
    }
}

/// The outcome of a parse that gives `j`.
pub open spec fn tree_ok(j: JsonView) -> Result<JsonView, Seq<char>> {
    Ok(j)
}

/// The outcome of a parse that fails with the message `e`.
pub open spec fn tree_err(e: Seq<char>) -> Result<JsonView, Seq<char>> {
    Err(e)
}

/// Whether a text parses to the content `j`.
pub open spec fn reads_as(text: Seq<char>, j: JsonView) -> bool {
    parsed(text) == Ok::<JsonView, Seq<char>>(j)
}

/// Whether a text is refused with the message `e`.
pub open spec fn reads_not(text: Seq<char>, e: Seq<char>) -> bool {
    parsed(text) == Err::<JsonView, Seq<char>>(e)
}

/// Whether a text holds no line feed.
pub open spec fn one_line(text: Seq<char>) -> bool {
    forall|i: int| 0 <= i < text.len() ==> text[i] != '\n'
}

/// One level of a `serde_json::Value`.
pub enum Node {
    Null,
    Bool(bool),
    Number(Number),
    Str(String),
    Array(Vec<Value>),
    Object(Vec<(String, Value)>),
}

/// The fields of one level.
pub open spec fn node_fields(v: Seq<(String, Value)>) -> Seq<FieldView> {
    v.map_values(|f: (String, Value)| entry(f.0@, value_tree(f.1)))
}

/// The content of one level and of what hangs below it.
pub open spec fn node_tree(n: Node) -> JsonView {
    match n {
        Node::Null => JsonView::Null,
        Node::Bool(b) => JsonView::Bool(b),
        Node::Number(x) => number_view(x),
        Node::Str(s) => JsonView::Str(s@),
        Node::Array(v) => JsonView::Array(v@.map_values(|x: Value| value_tree(x))),
        Node::Object(v) => JsonView::Object(node_fields(v@)),
    }
}

/// Calls `Number::as_u64`.
#[verifier::external_body]
fn number_as_u64(n: &Number) -> (r: Option<u64>)
    ensures
        r == number_u64(*n),
{
    n.as_u64()
}

/// Calls `Number::is_f64`.
#[verifier::external_body]
fn number_is_f64(n: &Number) -> (r: bool)
    ensures
        r == number_is_float(*n),
{
    n.is_f64()
}

/// Calls `Number::from` on an unsigned integer: the number is an integer, and
/// reads back as the one it was made from.
#[verifier::external_body]
fn number_from(u: u64) -> (r: Number)
    ensures
        number_u64(r) == Some(u),
        !number_is_float(r),
{
    Number::from(u)
}

/// Compares two numbers with `==` of `serde_json::Number`: a number equals
/// itself, and an unsigned integer equals no other kind of number.
#[verifier::external_body]
fn number_same(a: &Number, b: &Number) -> (r: bool)
    ensures
        r == (*a == *b || numbers_equal(*a, *b)),
        number_view(*a) == number_view(*b) ==> r,
        (number_view(*a) is U64 || number_view(*b) is U64) && number_view(*a) != number_view(*b)
            ==> !r,
{
    a == b
}

/// Calls `Number::clone`: the copy is the same number.
#[verifier::external_body]
fn number_copy(n: &Number) -> (r: Number)
    ensures
        r == *n,
{
    n.clone()
}

/// Calls `serde_json::from_str` for a `Value`.
#[verifier::external_body]
fn read_value(text: &str) -> (r: Result<Value, String>)
    ensures
        match r {
            Ok(v) => json_read(text@) == value_read(v),
            Err(e) => json_read(text@) == value_refused(e@),
        },
{
    match serde_json::from_str::<Value>(text) {
        Ok(v) => Ok(v),
        Err(e) => Err(e.to_string()),
    }
}

/// Calls `toml::from_str` for a `Value`.
#[verifier::external_body]
fn read_toml_value(text: &str) -> (r: Result<Value, String>)
    ensures
        match r {
            Ok(v) => toml_read(text@) == value_read(v),
            Err(e) => toml_read(text@) == value_refused(e@),
        },
{
    match toml::from_str::<Value>(text) {
        Ok(v) => Ok(v),
        Err(e) => Err(e.to_string()),
    }
}

/// Takes a `Value` apart by its variant. The map of an object gives its fields
/// in their order and holds no key twice.
#[verifier::external_body]
fn open_value(v: Value) -> (r: Node)
    ensures
        node_tree(r) == value_tree(v),
        r matches Node::Object(o) ==> distinct_keys(node_fields(o@)),
{
    match v {
        Value::Null => Node::Null,
        Value::Bool(b) => Node::Bool(b),
        Value::Number(n) => Node::Number(n),
        Value::String(s) => Node::Str(s),
        Value::Array(a) => Node::Array(a),
        Value::Object(m) => Node::Object(m.into_iter().collect()),
    }
}

/// Builds a `Value` of one variant. Fields collected into an object keep their
/// order (`preserve_order`); of two with one key the later value stays, at the
/// place of the earlier.
#[verifier::external_body]
fn make_value(n: Node) -> (r: Value)
    ensures
        value_tree(r) == (match n {
            Node::Object(o) => object(node_fields(o@)),
            _ => node_tree(n),
        }),
{
    match n {
        Node::Null => Value::Null,
        Node::Bool(b) => Value::Bool(b),
        Node::Number(x) => Value::Number(x),
        Node::Str(s) => Value::String(s),
        Node::Array(a) => Value::Array(a),
        Node::Object(o) => Value::Object(o.into_iter().collect()),
    }
}

/// Calls `Value::to_string`: the compact text, which holds no line feed (one
/// inside a string is escaped). A value whose numbers are
/// integers and that is not nested too deep reads back as it was.
#[verifier::external_body]
fn compact_text(v: &Value) -> (r: String)
    ensures
        r@ == tree_text(value_tree(*v)),
        one_line(r@),
        readable(value_tree(*v)) ==> reads_as(r@, value_tree(*v)),
{
    v.to_string()
}

/// Formats a `Value` with `{:#}`: the indented text. A value whose numbers are
/// integers and that is not nested too deep reads back as it was.
#[verifier::external_body]
fn pretty_text(v: &Value) -> (r: String)
    ensures
        r@ == tree_pretty(value_tree(*v)),
        readable(value_tree(*v)) ==> reads_as(r@, value_tree(*v)),
{
    format!("{v:#}")
}

/// A field that was put is there, and no other field changes.
pub proof fn lemma_get_put(
    o: Seq<FieldView>,
    key: Seq<char>,
    value: JsonView,
    other: Seq<char>,
)
    ensures
        get(put(o, key, value), other) == (if other == key {
            Some(value)
        } else {
            get(o, other)
        }),
    decreases o.len(),
{
    if o.len() == 0 {
        assert(put(o, key, value).skip(1) == o);
    } else if o[0].key == key {
        assert(put(o, key, value).skip(1) == o.skip(1));
    } else {
        lemma_get_put(o.skip(1), key, value, other);
        assert(put(o, key, value).skip(1) == put(o.skip(1), key, value));
    }
}

/// An object holds what the last field of a key in its list says.
pub proof fn lemma_collect_has(fields: Seq<FieldView>, i: int)
    requires
        0 <= i < fields.len(),
        forall|k: int| i < k < fields.len() ==> (#[trigger] fields[k]).key != fields[i].key,
    ensures
        get(collect(fields), fields[i].key) == Some(fields[i].value),
    decreases fields.len(),
{
    let less = fields.drop_last();
    lemma_get_put(collect(less), fields.last().key, fields.last().value, fields[i].key);
    if i < fields.len() - 1 {
        assert(less[i] == fields[i]);
        assert(fields[fields.len() - 1].key != fields[i].key);
        lemma_collect_has(less, i);
    }
}

/// An object holds nothing under a key that its list does not name.
pub proof fn lemma_collect_lacks(fields: Seq<FieldView>, key: Seq<char>)
    requires
        forall|k: int| 0 <= k < fields.len() ==> (#[trigger] fields[k]).key != key,
    ensures
        get(collect(fields), key) is None,
    decreases fields.len(),
{
    if fields.len() > 0 {
        let less = fields.drop_last();
        lemma_get_put(collect(less), fields.last().key, fields.last().value, key);
        assert(fields[fields.len() - 1].key != key);
        lemma_collect_lacks(less, key);
    }
}

/// An object holds every field of a list whose keys differ.
pub proof fn lemma_collect_all(fields: Seq<FieldView>)
    requires
        distinct_keys(fields),
    ensures
        forall|i: int|
            0 <= i < fields.len() ==> get(collect(fields), (#[trigger] fields[i]).key) == Some(
                fields[i].value,
            ),
{
    assert forall|i: int| 0 <= i < fields.len() implies get(
        collect(fields),
        (#[trigger] fields[i]).key,
    ) == Some(fields[i].value) by {
        lemma_collect_has(fields, i);
    }
}

/// Where the fields of `put` come from.
proof fn lemma_put_from(o: Seq<FieldView>, key: Seq<char>, value: JsonView, i: int)
    requires
        0 <= i < put(o, key, value).len(),
    ensures
        put(o, key, value)[i] == entry(key, value) || (exists|k: int|
            0 <= k < o.len() && o[k] == put(o, key, value)[i]),
    decreases o.len(),
{
    if o.len() == 0 {
    } else if o[0].key == key {
        if i > 0 {
            assert(o[i] == put(o, key, value)[i]);
        }
    } else {
        if i == 0 {
            assert(o[0] == put(o, key, value)[i]);
        } else {
            lemma_put_from(o.skip(1), key, value, i - 1);
            if put(o.skip(1), key, value)[i - 1] != entry(key, value) {
                let k = choose|k: int|
                    0 <= k < o.skip(1).len() && o.skip(1)[k] == put(o.skip(1), key, value)[i - 1];
                assert(o[k + 1] == put(o, key, value)[i]);
            }
        }
    }
}

/// `put` keeps the keys of an object distinct.
proof fn lemma_put_distinct(o: Seq<FieldView>, key: Seq<char>, value: JsonView)
    requires
        distinct_keys(o),
    ensures
        distinct_keys(put(o, key, value)),
    decreases o.len(),
{
    let p = put(o, key, value);
    if o.len() == 0 {
    } else if o[0].key == key {
        assert forall|i: int, j: int| 0 <= i < j < p.len() implies (#[trigger] p[i]).key != (
        #[trigger] p[j]).key by {
            assert(o[i].key == p[i].key && o[j].key == p[j].key);
        }
    } else {
        let rest = o.skip(1);
        assert forall|i: int, j: int| 0 <= i < j < rest.len() implies (#[trigger] rest[i]).key != (
        #[trigger] rest[j]).key by {
            assert(rest[i] == o[i + 1] && rest[j] == o[j + 1]);
        }
        lemma_put_distinct(rest, key, value);
        let q = put(rest, key, value);
        assert forall|i: int, j: int| 0 <= i < j < p.len() implies (#[trigger] p[i]).key != (
        #[trigger] p[j]).key by {
            assert(p[j] == q[j - 1]);
            if i > 0 {
                assert(p[i] == q[i - 1]);
            } else {
                lemma_put_from(rest, key, value, j - 1);
                if q[j - 1] != entry(key, value) {
                    let k = choose|k: int| 0 <= k < rest.len() && rest[k] == q[j - 1];
                    assert(rest[k] == o[k + 1]);
                    assert(o[0].key != o[k + 1].key);
                }
            }
        }
    }
}

/// An object made of a list of fields holds each key once, and every value in it
/// comes from the list.
pub proof fn lemma_collect(fields: Seq<FieldView>)
    ensures
        distinct_keys(collect(fields)),
        forall|i: int|
            0 <= i < collect(fields).len() ==> exists|k: int|
                0 <= k < fields.len() && fields[k] == #[trigger] collect(fields)[i],
    decreases fields.len(),
{
    if fields.len() > 0 {
        let less = fields.drop_last();
        let c = collect(less);
        let key = fields.last().key;
        let value = fields.last().value;
        lemma_collect(less);
        lemma_put_distinct(c, key, value);
        assert forall|i: int| 0 <= i < collect(fields).len() implies exists|k: int|
            0 <= k < fields.len() && fields[k] == #[trigger] collect(fields)[i] by {
            lemma_put_from(c, key, value, i);
            if put(c, key, value)[i] == entry(key, value) {
                assert(fields[fields.len() - 1] == collect(fields)[i]);
            } else {
                let m = choose|m: int| 0 <= m < c.len() && c[m] == put(c, key, value)[i];
                let k = choose|k: int| 0 <= k < less.len() && less[k] == c[m];
                assert(fields[k] == collect(fields)[i]);
            }
        }
    }
}

/// Putting a key that is not there appends it.
proof fn lemma_put_last(o: Seq<FieldView>, key: Seq<char>, value: JsonView)
    requires
        forall|i: int| 0 <= i < o.len() ==> (#[trigger] o[i]).key != key,
    ensures
        put(o, key, value) == o.push(entry(key, value)),
    decreases o.len(),
{
    if o.len() > 0 {
        assert(o[0].key != key);
        assert forall|i: int| 0 <= i < o.skip(1).len() implies (#[trigger] o.skip(1)[i]).key
            != key by {
            assert(o.skip(1)[i] == o[i + 1]);
        }
        lemma_put_last(o.skip(1), key, value);
        assert(seq![o[0]] + o.skip(1).push(entry(key, value)) == o.push(entry(key, value)));
    } else {
        assert(seq![entry(key, value)] == o.push(entry(key, value)));
    }
}

/// Fields whose keys differ are collected as they stand.
pub proof fn lemma_collect_distinct(fields: Seq<FieldView>)
    requires
        distinct_keys(fields),
    ensures
        collect(fields) == fields,
    decreases fields.len(),
{
    if fields.len() > 0 {
        let less = fields.drop_last();
        assert(distinct_keys(less)) by {
            assert forall|i: int, j: int| 0 <= i < j < less.len() implies (#[trigger] less[i]).key
                != (#[trigger] less[j]).key by {
                assert(less[i] == fields[i] && less[j] == fields[j]);
            }
        }
        lemma_collect_distinct(less);
        let n = fields.len() - 1;
        assert forall|i: int| 0 <= i < less.len() implies (#[trigger] less[i]).key
            != fields.last().key by {
            assert(less[i] == fields[i]);
            assert(fields[i].key != fields[n].key);
        }
        lemma_put_last(less, fields.last().key, fields.last().value);
        assert(less.push(fields.last()) == fields);
    } else {
        assert(collect(fields) == fields);
    }
}

/// Settling a value that holds each key once changes nothing.
pub proof fn lemma_settle(j: JsonView)
    requires
        settled(j),
    ensures
        settle(j) == j,
    decreases j,
{
    match j {
        JsonView::Array(a) => {
            assert forall|i: int| 0 <= i < a.len() implies settle(a[i]) == a[i] by {
                lemma_settle(a[i]);
            }
            lemma_settle_all(a);
            assert(settle_all(a) =~= a);
        },
        JsonView::Object(o) => {
            assert forall|i: int| 0 <= i < o.len() implies settle(o[i].value) == o[i].value by {
                lemma_settle(o[i].value);
            }
            lemma_collect_distinct(o);
            lemma_settle_fields(o);
            assert(settle_fields(o) =~= o);
        },
        _ => {},
    }
}

/// The first field named `key`, taken from the fields themselves.
pub proof fn lemma_get_here(o: Seq<FieldView>, key: Seq<char>, i: int)
    requires
        0 <= i <= o.len(),
        forall|k: int| 0 <= k < i ==> (#[trigger] o[k]).key != key,
        i < o.len() ==> o[i].key == key,
    ensures
        get(o, key) == (if i < o.len() {
            Some(o[i].value)
        } else {
            None
        }),
    decreases o.len(),
{
    if i > 0 {
        assert(o[0].key != key);
        assert forall|k: int| 0 <= k < i - 1 implies (#[trigger] o.skip(1)[k]).key != key by {
            assert(o.skip(1)[k] == o[k + 1]);
        }
        lemma_get_here(o.skip(1), key, i - 1);
    }
}

impl Json {
    /// A copy of the value.
    pub fn copy(&self) -> (r: Json)
        ensures
            r@ == self@,
        decreases self,
    {
        match self {
            Json::Null => Json::Null,
            Json::Bool(b) => Json::Bool(*b),
            Json::Number(n) => Json::Number(number_copy(n)),
            Json::Str(s) => Json::Str(s.clone()),
            Json::Array(v) => {
                let mut out: Vec<Json> = Vec::new();
                let mut i: usize = 0;
                while i < v.len()
                    invariant
                        i <= v.len(),
                        out@.len() == i,
                        self == Json::Array(*v),
                        forall|k: int| 0 <= k < i ==> out@[k]@ == v@[k]@,
                    decreases v.len() - i,
                {
                    assert(decreases_to!(self => self->Array_0));
                    assert(decreases_to!(v => v@));
                    assert(decreases_to!(v@ => v@[i as int]));
                    out.push(v[i].copy());
                    i = i + 1;
                }
                let r = Json::Array(out);
                proof {
                    lemma_array_view(r);
                    lemma_array_view(*self);
                    assert(views(out@) =~= views(v@));
                }
                r
            },
            Json::Object(v) => {
                let mut out: Vec<Field> = Vec::new();
                let mut i: usize = 0;
                while i < v.len()
                    invariant
                        i <= v.len(),
                        out@.len() == i,
                        self == Json::Object(*v),
                        forall|k: int| 0 <= k < i ==> out@[k].key@ == v@[k].key@ && out@[k].value@
                            == v@[k].value@,
                    decreases v.len() - i,
                {
                    assert(decreases_to!(self => self->Object_0));
                    assert(decreases_to!(v => v@));
                    assert(decreases_to!(v@ => v@[i as int]));
                    assert(decreases_to!(v@[i as int] => v@[i as int].value));
                    out.push(Field { key: v[i].key.clone(), value: v[i].value.copy() });
                    i = i + 1;
                }
                let r = Json::Object(out);
                proof {
                    lemma_object_view(r);
                    lemma_object_view(*self);
                    assert(field_views(out@) =~= field_views(v@));
                }
                r
            },
        }
    }

    /// The number of an unsigned integer.
    pub fn of_u64(u: u64) -> (r: Json)
        ensures
            r@ == JsonView::U64(u),
    {
        Json::Number(number_from(u))
    }

    /// The string with the text `s`.
    pub fn of_str(s: &str) -> (r: Json)
        ensures
            r@ == JsonView::Str(s@),
    {
        Json::Str(s.to_owned())
    }

    /// The object with these fields; of two with one key the later stays.
    pub fn of_fields(fields: Vec<(&str, Json)>) -> (r: Json)
        ensures
            r@ == object(fields@.map_values(|f: (&str, Json)| entry(f.0@, f.1@))),
            settled_fields(fields@) ==> settled(r@),
    {
        let ghost all = fields@.map_values(|f: (&str, Json)| entry(f.0@, f.1@));
        let ghost given = fields@;
        let mut out: Vec<Field> = Vec::new();
        let mut rest = fields;
        let ghost mut done: int = 0;
        let mut backward: Vec<(&str, Json)> = Vec::new();
        while rest.len() > 0
            invariant
                rest@.len() + backward@.len() == given.len(),
                forall|k: int| 0 <= k < rest@.len() ==> rest@[k] == given[k],
                forall|k: int|
                    0 <= k < backward@.len() ==> backward@[k] == given[given.len() - 1 - k],
            decreases rest@.len(),
        {
            let field = rest.pop().unwrap();
            backward.push(field);
        }
        assert(field_views(out@) == collect(all.take(0)));
        while backward.len() > 0
            invariant
                all == given.map_values(|f: (&str, Json)| entry(f.0@, f.1@)),
                backward@.len() <= given.len(),
                done == given.len() - backward@.len(),
                forall|k: int|
                    0 <= k < backward@.len() ==> backward@[k] == given[given.len() - 1 - k],
                field_views(out@) == collect(all.take(done)),
            decreases backward@.len(),
        {
            let (key, value) = backward.pop().unwrap();
            proof {
                assert((key, value) == given[done]);
                assert(all.take(done + 1).drop_last() == all.take(done));
                assert(all.take(done + 1).last() == all[done]);
                done = done + 1;
            }
            put_field(&mut out, key, value);
        }
        assert(all.take(done) == all);
        let r = Json::Object(out);
        proof {
            lemma_object_view(r);
            if settled_fields(given) {
                lemma_collect(all);
                let c = collect(all);
                assert forall|i: int| 0 <= i < c.len() implies settled((#[trigger] c[i]).value) by {
                    let k = choose|k: int| 0 <= k < all.len() && all[k] == c[i];
                    assert(settled(given[k].1@));
                }
            }
        }
        r
    }

    /// What the field `key` of an object holds.
    pub fn get(&self, key: &str) -> (r: Option<&Json>)
        ensures
            r is Some <==> (self@ matches JsonView::Object(o) && get(o, key@) is Some),
            r matches Some(x) ==> (self@ matches JsonView::Object(o) && get(o, key@) == Some(x@)),
    {
        match self {
            Json::Object(v) => {
                let ghost o = self@->Object_0;
                proof {
                    lemma_object_view(*self);
                }
                let mut i: usize = 0;
                while i < v.len()
                    invariant
                        i <= v.len(),
                        self@ == JsonView::Object(o),
                        o == field_views(v@),
                        forall|k: int| 0 <= k < i ==> (#[trigger] o[k]).key != key@,
                    decreases v.len() - i,
                {
                    assert(o[i as int].key == v@[i as int].key@);
                    if same(v[i].key.as_str(), key) {
                        proof {
                            lemma_get_here(o, key@, i as int);
                        }
                        return Some(&v[i].value);
                    }
                    i = i + 1;
                }
                proof {
                    lemma_get_here(o, key@, o.len() as int);
                }
                None
            },
            _ => None,
        }
    }

    /// The text of the value, compact.
    pub fn to_text(&self) -> (r: String)
        ensures
            r@ == tree_text(settle(self@)),
            one_line(r@),
            readable(settle(self@)) ==> reads_as(r@, settle(self@)),
    {
        let v = value_of(self);
        compact_text(&v)
    }

    /// The text of the value, indented.
    pub fn to_pretty_text(&self) -> (r: String)
        ensures
            r@ == tree_pretty(settle(self@)),
            readable(settle(self@)) ==> reads_as(r@, settle(self@)),
    {
        let v = value_of(self);
        pretty_text(&v)
    }

    /// The value that a text stands for, or the parser's message.
    pub fn parse(text: &str) -> (r: Result<Json, String>)
        ensures
            match r {
                Ok(j) => reads_as(text@, j@) && settled(j@),
                Err(e) => reads_not(text@, e@),
            },
    {
        match read_value(text) {
            Ok(v) => Ok(tree_of(v)),
            Err(e) => Err(e),
        }
    }

    /// The value that a TOML text stands for, or the parser's message.
    pub fn parse_toml(text: &str) -> (r: Result<Json, String>)
        ensures
            match r {
                Ok(j) => toml_parsed(text@) == tree_ok(j@),
                Err(e) => toml_parsed(text@) == tree_err(e@),
            },
    {
        match read_toml_value(text) {
            Ok(v) => Ok(tree_of(v)),
            Err(e) => Err(e),
        }
    }

    /// The unsigned integer that a number holds.
    pub fn as_u64(&self) -> (r: Option<u64>)
        ensures
            r == json_u64(self@),
    {
        match self {
            Json::Number(n) => number_as_u64(n),
            _ => None,
        }
    }
}

/// Whether every value of a list of fields holds each key once.
pub open spec fn settled_fields(fields: Seq<(&str, Json)>) -> bool {
    forall|i: int| 0 <= i < fields.len() ==> settled((#[trigger] fields[i]).1@)
}

/// The unsigned integer that a value holds, if it is one.
pub open spec fn json_u64(j: JsonView) -> Option<u64> {
    match j {
        JsonView::U64(u) => Some(u),
        _ => None,
    }
}

/// Sets a field: at its place where it has one, else behind the others.
fn put_field(o: &mut Vec<Field>, key: &str, value: Json)
    ensures
        field_views(final(o)@) == put(field_views(old(o)@), key@, value@),
{
    let ghost all = field_views(o@);
    let mut i: usize = 0;
    assert(all.skip(0) == all);
    assert(all.take(0) + put(all.skip(0), key@, value@) == put(all, key@, value@));
    while i < o.len()
        invariant
            i <= o.len(),
            o@ == old(o)@,
            all == field_views(o@),
            all.take(i as int) + put(all.skip(i as int), key@, value@) == put(all, key@, value@),
        decreases o.len() - i,
    {
        assert(all.skip(i as int)[0] == all[i as int]);
        assert(all[i as int].key == o@[i as int].key@);
        if same(o[i].key.as_str(), key) {
            let name = key.to_owned();
            o.remove(i);
            o.insert(i, Field { key: name, value });
            assert(field_views(o@) =~= all.take(i as int) + (seq![entry(key@, value@)] + all.skip(
                i as int,
            ).skip(1)));
            return ;
        }
        assert(all.skip(i as int).skip(1) == all.skip(i + 1));
        assert(all.take(i as int) + (seq![all[i as int]] + put(all.skip(i + 1), key@, value@))
            == all.take(i + 1) + put(all.skip(i + 1), key@, value@));
        i = i + 1;
    }
    let name = key.to_owned();
    o.push(Field { key: name, value });
    assert(all.skip(i as int).len() == 0);
    assert(field_views(o@) =~= all.take(i as int) + seq![entry(key@, value@)]);
}

/// Opens a `Value` to every depth.
fn tree_of(v: Value) -> (r: Json)
    ensures
        r@ == value_tree(v),
        settled(r@),
    decreases value_tree(v),
{
    let ghost whole = value_tree(v);
    match open_value(v) {
        Node::Null => Json::Null,
        Node::Bool(b) => Json::Bool(b),
        Node::Number(n) => Json::Number(n),
        Node::Str(s) => Json::Str(s),
        Node::Array(a) => {
            let mut rest = a;
            let ghost items = whole->Array_0;
            let mut out: Vec<Json> = Vec::new();
            while rest.len() > 0
                invariant
                    whole == value_tree(v),
                    whole == JsonView::Array(items),
                    rest@.len() + out@.len() == items.len(),
                    forall|k: int|
                        0 <= k < rest@.len() ==> value_tree(#[trigger] rest@[k]) == items[k
                            + out@.len()],
                    forall|k: int|
                        0 <= k < out@.len() ==> (#[trigger] out@[k])@ == items[k] && settled(
                            out@[k]@,
                        ),
                decreases rest@.len(),
            {
                let ghost n = out@.len() as int;
                let ghost before = rest@;
                let item = rest.remove(0);
                assert(item == before[0]);
                assert(value_tree(item) == items[n]);
                assert(decreases_to!(whole => whole->Array_0));
                assert(decreases_to!(items => items[n]));
                out.push(tree_of(item));
                assert forall|k: int| 0 <= k < rest@.len() implies value_tree(#[trigger] rest@[k])
                    == items[k + out@.len()] by {
                    assert(rest@[k] == before[k + 1]);
                }
            }
            let r = Json::Array(out);
            proof {
                lemma_array_view(r);
                assert(views(out@) =~= items);
            }
            r
        },
        Node::Object(o) => {
            let ghost items = whole->Object_0;
            assert(items == node_fields(o@));
            let mut rest = o;
            let mut out: Vec<Field> = Vec::new();
            while rest.len() > 0
                invariant
                    whole == value_tree(v),
                    whole == JsonView::Object(items),
                    rest@.len() + out@.len() == items.len(),
                    forall|k: int|
                        0 <= k < rest@.len() ==> items[k + out@.len()] == entry((#[trigger] rest@[k]).0@, value_tree(rest@[k].1)),
                    forall|k: int|
                        0 <= k < out@.len() ==> items[k] == entry((#[trigger] out@[k]).key@, out@[k].value@) && settled(out@[k].value@),
                decreases rest@.len(),
            {
                let ghost n = out@.len() as int;
                let ghost before = rest@;
                let (key, item) = rest.remove(0);
                assert((key, item) == before[0]);
                assert(items[n].value == value_tree(item));
                assert(decreases_to!(whole => whole->Object_0));
                assert(decreases_to!(items => items[n]));
                assert(decreases_to!(items[n] => items[n].value));
                let tree = tree_of(item);
                out.push(Field { key, value: tree });
                assert forall|k: int| 0 <= k < rest@.len() implies items[k + out@.len()] == (
                entry((#[trigger] rest@[k]).0@, value_tree(rest@[k].1))) by {
                    assert(rest@[k] == before[k + 1]);
                }
            }
            let r = Json::Object(out);
            proof {
                lemma_object_view(r);
                assert(field_views(out@) =~= items);
            }
            r
        },
    }
}

/// Builds the `Value` of a tree.
fn value_of(j: &Json) -> (r: Value)
    ensures
        value_tree(r) == settle(j@),
    decreases j,
{
    match j {
        Json::Null => make_value(Node::Null),
        Json::Bool(b) => make_value(Node::Bool(*b)),
        Json::Number(n) => make_value(Node::Number(number_copy(n))),
        Json::Str(s) => make_value(Node::Str(s.clone())),
        Json::Array(v) => {
            let mut out: Vec<Value> = Vec::new();
            let mut i: usize = 0;
            while i < v.len()
                invariant
                    i <= v.len(),
                    out@.len() == i,
                    j == Json::Array(*v),
                    forall|k: int| 0 <= k < i ==> value_tree(out@[k]) == settle(v@[k]@),
                decreases v.len() - i,
            {
                assert(decreases_to!(j => j->Array_0));
                assert(decreases_to!(v => v@));
                assert(decreases_to!(v@ => v@[i as int]));
                out.push(value_of(&v[i]));
                i = i + 1;
            }
            proof {
                lemma_array_view(*j);
                lemma_settle_all(views(v@));
                assert(out@.map_values(|x: Value| value_tree(x)) =~= settle_all(views(v@)));
            }
            make_value(Node::Array(out))
        },
        Json::Object(v) => {
            let mut out: Vec<(String, Value)> = Vec::new();
            let mut i: usize = 0;
            while i < v.len()
                invariant
                    i <= v.len(),
                    out@.len() == i,
                    j == Json::Object(*v),
                    forall|k: int| 0 <= k < i ==> out@[k].0@ == v@[k].key@ && value_tree(out@[k].1)
                        == settle(v@[k].value@),
                decreases v.len() - i,
            {
                assert(decreases_to!(j => j->Object_0));
                assert(decreases_to!(v => v@));
                assert(decreases_to!(v@ => v@[i as int]));
                assert(decreases_to!(v@[i as int] => v@[i as int].value));
                out.push((v[i].key.clone(), value_of(&v[i].value)));
                i = i + 1;
            }
            proof {
                lemma_object_view(*j);
                lemma_settle_fields(field_views(v@));
                assert(node_fields(out@) =~= settle_fields(field_views(v@)));
            }
            make_value(Node::Object(out))
        },
    }
}

/// Whether a value reads back from its text inside `depth` levels: it holds each
/// key once, its numbers are integers and it is nested no deeper.

pub open spec fn tidy(j: JsonView, depth: nat) -> bool {
    settled(j) && whole_numbers(j) && nested_within(j, depth)
}

/// What is nested within one depth is nested within a greater one.
pub proof fn lemma_nested_more(j: JsonView, a: nat, b: nat)
    requires
        nested_within(j, a),
        a <= b,
    ensures
        nested_within(j, b),
    decreases j,
{
    match j {
        JsonView::Array(v) => {
            assert forall|i: int| 0 <= i < v.len() implies nested_within(
                #[trigger] v[i],
                (b - 1) as nat,
            ) by {
                lemma_nested_more(v[i], (a - 1) as nat, (b - 1) as nat);
            }
        },
        JsonView::Object(o) => {
            assert forall|i: int| 0 <= i < o.len() implies nested_within(
                (#[trigger] o[i]).value,
                (b - 1) as nat,
            ) by {
                lemma_nested_more(o[i].value, (a - 1) as nat, (b - 1) as nat);
            }
        },
        _ => {},
    }
}

/// An object of tidy values is tidy.
pub proof fn lemma_tidy_object(fields: Seq<FieldView>, depth: nat)
    requires
        depth > 0,
        forall|i: int|
            0 <= i < fields.len() ==> tidy((#[trigger] fields[i]).value, (depth - 1) as nat),
    ensures
        tidy(object(fields), depth),
{
    lemma_collect(fields);
    let c = collect(fields);
    assert forall|i: int| 0 <= i < c.len() implies tidy(
        (#[trigger] c[i]).value,
        (depth - 1) as nat,
    ) by {
        let k = choose|k: int| 0 <= k < fields.len() && fields[k] == c[i];
        assert(tidy(fields[k].value, (depth - 1) as nat));
    }
}

/// A list of tidy values is tidy.
pub proof fn lemma_tidy_array(a: Seq<JsonView>, depth: nat)
    requires
        depth > 0,
        forall|i: int| 0 <= i < a.len() ==> tidy(#[trigger] a[i], (depth - 1) as nat),
    ensures
        tidy(JsonView::Array(a), depth),
{
}

/// A list of simple values is tidy.
pub proof fn lemma_tidy_simple_array(a: Seq<JsonView>, depth: nat)
    requires
        depth > 0,
        forall|i: int| 0 <= i < a.len() ==> (#[trigger] a[i]) is Str,
    ensures
        tidy(JsonView::Array(a), depth),
{
    reveal_with_fuel(settled, 2);
    reveal_with_fuel(whole_numbers, 2);
    reveal_with_fuel(nested_within, 2);
}

/// Whether a field before the one at `i` has its key.
pub open spec fn repeated(o: Seq<FieldView>, i: int) -> bool {
    exists|k: int| 0 <= k < i && (#[trigger] o[k]).key == o[i].key
}

/// Whether two values are equal: number by number, and two objects whatever the
/// order of their fields.
pub open spec fn alike(a: JsonView, b: JsonView) -> bool
    decreases a,
{
    match (a, b) {
        (JsonView::Null, JsonView::Null) => true,
        (JsonView::Bool(x), JsonView::Bool(y)) => x == y,
        (JsonView::U64(x), JsonView::U64(y)) => x == y,
        (JsonView::Number(x), JsonView::Number(y)) => x == y || numbers_equal(x, y),
        (JsonView::Str(x), JsonView::Str(y)) => x == y,
        (JsonView::Array(x), JsonView::Array(y)) => x.len() == y.len() && forall|i: int|
            0 <= i < x.len() ==> alike(#[trigger] x[i], y[i]),
        (JsonView::Object(x), JsonView::Object(y)) => x.len() == y.len() && forall|i: int|
            0 <= i < x.len() ==> repeated(x, i) || match get(y, (#[trigger] x[i]).key) {
                Some(v) => alike(x[i].value, v),
                None => false,
            },
        _ => false,
    }
}

/// Whether two lists of values are equal.
pub open spec fn all_alike(a: Seq<JsonView>, b: Seq<JsonView>) -> bool {
    a.len() == b.len() && forall|i: int| 0 <= i < a.len() ==> alike(#[trigger] a[i], b[i])
}

/// A value equals itself.
pub proof fn lemma_alike_self(j: JsonView)
    ensures
        alike(j, j),
    decreases j,
{
    match j {
        JsonView::Array(a) => {
            assert forall|i: int| 0 <= i < a.len() implies alike(#[trigger] a[i], a[i]) by {
                lemma_alike_self(a[i]);
            }
        },
        JsonView::Object(o) => {
            assert forall|i: int| 0 <= i < o.len() implies repeated(o, i) || match get(
                o,
                (#[trigger] o[i]).key,
            ) {
                Some(v) => alike(o[i].value, v),
                None => false,
            } by {
                lemma_alike_self(o[i].value);
                if !repeated(o, i) {
                    lemma_get_here(o, o[i].key, i);
                }
            }
        },
        _ => {},
    }
}

/// Whether two lists of values are equal.
pub fn same_values(a: &Vec<Json>, b: &Vec<Json>) -> (r: bool)
    ensures
        r == all_alike(views(a@), views(b@)),
    decreases a,
{
    if a.len() != b.len() {
        return false;
    }
    let mut i: usize = 0;
    while i < a.len()
        invariant
            i <= a@.len() == b@.len(),
            forall|k: int| 0 <= k < i ==> alike(#[trigger] views(a@)[k], views(b@)[k]),
        decreases a@.len() - i,
    {
        if !a[i].same_as(&b[i]) {
            assert(!alike(views(a@)[i as int], views(b@)[i as int]));
            return false;
        }
        i = i + 1;
    }
    true
}

/// Where the first of `fields` with the key `key` stands.
fn find_field(fields: &Vec<Field>, key: &str) -> (r: Option<usize>)
    ensures
        match r {
            Some(i) => i < fields@.len() && fields@[i as int].key@ == key@ && forall|k: int|
                0 <= k < i ==> (#[trigger] field_views(fields@)[k]).key != key@,
            None => forall|k: int|
                0 <= k < fields@.len() ==> (#[trigger] field_views(fields@)[k]).key != key@,
        },
{
    let mut i: usize = 0;
    while i < fields.len()
        invariant
            i <= fields@.len(),
            forall|k: int| 0 <= k < i ==> (#[trigger] field_views(fields@)[k]).key != key@,
        decreases fields@.len() - i,
    {
        if same(fields[i].key.as_str(), key) {
            return Some(i);
        }
        i = i + 1;
    }
    None
}

/// Whether two lists of fields make equal objects.
fn same_fields(a: &Vec<Field>, b: &Vec<Field>) -> (r: bool)
    ensures
        r == alike(JsonView::Object(field_views(a@)), JsonView::Object(field_views(b@))),
    decreases a,
{
    let ghost x = field_views(a@);
    let ghost y = field_views(b@);
    if a.len() != b.len() {
        return false;
    }
    let mut i: usize = 0;
    while i < a.len()
        invariant
            i <= a@.len() == b@.len(),
            x == field_views(a@),
            y == field_views(b@),
            forall|k: int|
                0 <= k < i ==> repeated(x, k) || match get(y, (#[trigger] x[k]).key) {
                    Some(v) => alike(x[k].value, v),
                    None => false,
                },
        decreases a@.len() - i,
    {
        let key = a[i].key.as_str();
        assert(x[i as int] == entry(a@[i as int].key@, a@[i as int].value@));
        let first = find_field(a, key);
        if first == Some(i) {
            assert(!repeated(x, i as int));
            match find_field(b, key) {
                None => {
                    proof {
                        lemma_get_here(y, key@, y.len() as int);
                    }
                    return false;
                },
                Some(k) => {
                    proof {
                        lemma_get_here(y, key@, k as int);
                    }
                    if !a[i].value.same_as(&b[k].value) {
                        return false;
                    }
                },
            }
        } else {
            assert(x[first->0 as int].key == key@);
            assert(repeated(x, i as int));
        }
        i = i + 1;
    }
    true
}

impl Json {
    /// Whether two values are equal.
    pub fn same_as(&self, other: &Json) -> (r: bool)
        ensures
            r == alike(self@, other@),
        decreases self,
    {
        match (self, other) {
            (Json::Null, Json::Null) => true,
            (Json::Bool(x), Json::Bool(y)) => *x == *y,
            (Json::Number(x), Json::Number(y)) => number_same(x, y),
            (Json::Str(x), Json::Str(y)) => same(x.as_str(), y.as_str()),
            (Json::Array(x), Json::Array(y)) => {
                proof {
                    lemma_array_view(*self);
                    lemma_array_view(*other);
                }
                same_values(x, y)
            },
            (Json::Object(x), Json::Object(y)) => {
                proof {
                    lemma_object_view(*self);
                    lemma_object_view(*other);
                }
                same_fields(x, y)
            },
            _ => false,
        }
    }
}

/// What holds of an array holds of its items.
proof fn lemma_item(j: JsonView, i: int, depth: nat)
    requires
        j is Array,
        0 <= i < j->Array_0.len(),
    ensures
        whole_numbers(j) ==> whole_numbers(j->Array_0[i]),
        nested_within(j, depth) ==> nested_within(j->Array_0[i], (depth - 1) as nat),
{
    let a = j->Array_0;
    if whole_numbers(j) {
        assert(forall|k: int| 0 <= k < a.len() ==> whole_numbers(#[trigger] a[k]));
        assert(whole_numbers(a[i]));
    }
    if nested_within(j, depth) {
        assert(forall|k: int|
            0 <= k < a.len() ==> nested_within(#[trigger] a[k], (depth - 1) as nat));
    }
}

impl Json {
    /// Whether every number in the value is an integer.
    pub fn has_whole_numbers(&self) -> (r: bool)
        ensures
            r == whole_numbers(self@),
        decreases self,
    {
        match self {
            Json::Number(n) => number_as_u64(n).is_some() || !number_is_f64(n),
            Json::Array(v) => {
                let ghost a = views(v@);
                proof {
                    lemma_array_view(*self);
                }
                let mut i: usize = 0;
                while i < v.len()
                    invariant
                        i <= v.len(),
                        self == Json::Array(*v),
                        a == views(v@),
                        self@ == JsonView::Array(a),
                        forall|k: int| 0 <= k < i ==> whole_numbers(#[trigger] a[k]),
                    decreases v.len() - i,
                {
                    assert(decreases_to!(self => self->Array_0));
                    assert(decreases_to!(v => v@));
                    assert(decreases_to!(v@ => v@[i as int]));
                    assert(a[i as int] == v@[i as int]@);
                    if !v[i].has_whole_numbers() {
                        proof {
                            if whole_numbers(self@) {
                                lemma_item(self@, i as int, 0);
                            }
                        }
                        return false;
                    }
                    i = i + 1;
                }
                true
            },
            Json::Object(v) => {
                proof {
                    lemma_object_view(*self);
                }
                let mut i: usize = 0;
                while i < v.len()
                    invariant
                        i <= v.len(),
                        self == Json::Object(*v),
                        self@ == JsonView::Object(field_views(v@)),
                        forall|k: int|
                            0 <= k < i ==> whole_numbers((#[trigger] field_views(v@)[k]).value),
                    decreases v.len() - i,
                {
                    assert(decreases_to!(self => self->Object_0));
                    assert(decreases_to!(v => v@));
                    assert(decreases_to!(v@ => v@[i as int]));
                    assert(decreases_to!(v@[i as int] => v@[i as int].value));
                    assert(field_views(v@)[i as int].value == v@[i as int].value@);
                    if !v[i].value.has_whole_numbers() {
                        return false;
                    }
                    i = i + 1;
                }
                true
            },
            _ => true,
        }
    }

    /// Whether arrays and objects are nested no deeper than `depth`.
    pub fn is_nested_within(&self, depth: u64) -> (r: bool)
        ensures
            r == nested_within(self@, depth as nat),
        decreases self,
    {
        match self {
            Json::Array(v) => {
                let ghost a = views(v@);
                proof {
                    lemma_array_view(*self);
                }
                if depth == 0 {
                    return false;
                }
                let mut i: usize = 0;
                while i < v.len()
                    invariant
                        i <= v.len(),
                        depth > 0,
                        self == Json::Array(*v),
                        a == views(v@),
                        self@ == JsonView::Array(a),
                        forall|k: int|
                            0 <= k < i ==> nested_within(#[trigger] a[k], (depth - 1) as nat),
                    decreases v.len() - i,
                {
                    assert(decreases_to!(self => self->Array_0));
                    assert(decreases_to!(v => v@));
                    assert(decreases_to!(v@ => v@[i as int]));
                    assert(a[i as int] == v@[i as int]@);
                    if !v[i].is_nested_within(depth - 1) {
                        proof {
                            if nested_within(self@, depth as nat) {
                                lemma_item(self@, i as int, depth as nat);
                            }
                        }
                        return false;
                    }
                    i = i + 1;
                }
                true
            },
            Json::Object(v) => {
                proof {
                    lemma_object_view(*self);
                }
                if depth == 0 {
                    return false;
                }
                let mut i: usize = 0;
                while i < v.len()
                    invariant
                        i <= v.len(),
                        depth > 0,
                        self == Json::Object(*v),
                        self@ == JsonView::Object(field_views(v@)),
                        forall|k: int|
                            0 <= k < i ==> nested_within(
                                (#[trigger] field_views(v@)[k]).value,
                                (depth - 1) as nat,
                            ),
                    decreases v.len() - i,
                {
                    assert(decreases_to!(self => self->Object_0));
                    assert(decreases_to!(v => v@));
                    assert(decreases_to!(v@ => v@[i as int]));
                    assert(decreases_to!(v@[i as int] => v@[i as int].value));
                    assert(field_views(v@)[i as int].value == v@[i as int].value@);
                    if !v[i].value.is_nested_within(depth - 1) {
                        return false;
                    }
                    i = i + 1;
                }
                true
            },
            _ => true,
        }
    }

    /// Whether the text of the value reads back as the value.
    pub fn is_readable(&self) -> (r: bool)
        ensures
            r == readable(self@),
    {
        self.is_nested_within(MAX_NESTING) && self.has_whole_numbers()
    }
}

impl PartialEq for Json {
    /// Whether two values are equal.
    fn eq(&self, other: &Json) -> (r: bool) {
        self.same_as(other)
    }
}

impl vstd::std_specs::cmp::PartialEqSpecImpl for Json {
    open spec fn obeys_eq_spec() -> bool {
        true
    }

    open spec fn eq_spec(&self, other: &Json) -> bool {
        alike(self@, other@)
    }
}

impl Json {
    /// The value with a field set, where it is an object.
    pub fn with(self, key: &str, value: Json) -> (r: Json)
        ensures
            r@ == (match self@ {
                JsonView::Object(o) => JsonView::Object(put(o, key@, value@)),
                _ => self@,
            }),
    {
        match self {
            Json::Object(mut v) => {
                proof {
                    lemma_object_view(self);
                }
                put_field(&mut v, key, value);
                let r = Json::Object(v);
                proof {
                    lemma_object_view(r);
                }
                r
            },
            other => other,
        }
    }
}

} // verus!
