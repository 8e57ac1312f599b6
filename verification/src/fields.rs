//! Reading typed fields out of JSON objects. A field that may be missing reads
//! the same when it is `null`.

use vstd::prelude::*;

use crate::json::{Json, JsonView};

verus! {

/// What is read from a JSON value.
pub trait FromJson: Sized + View {
    /// The content that a value stands for.
    spec fn of(j: JsonView) -> Option<Self::V>;

    /// Reads a value.
    fn from_json(j: &Json) -> (r: Option<Self>)
        ensures
            opt_view(r) == Self::of(j@),
    ;
}

/// A record: it is read from an object, or from a list with the values of its
/// fields in their order.
pub trait Record: Sized + View {
    /// The names of the fields, in their order.
    spec fn names() -> Seq<Seq<char>>;

    /// The content that an object stands for.
    spec fn of_object(j: JsonView) -> Option<Self::V>;

    /// The names of the fields, in their order.
    fn field_names() -> (r: Vec<&'static str>)
        ensures
            names_of(r@) == Self::names(),
    ;

    /// Reads an object.
    fn from_object(j: &Json) -> (r: Option<Self>)
        requires
            j@ is Object,
        ensures
            opt_view(r) == Self::of_object(j@),
    ;
}

impl<T: Record> FromJson for T {
    open spec fn of(j: JsonView) -> Option<T::V> {
        match record(j, T::names(), true) {
            Some(o) => T::of_object(o),
            None => None,
        }
    }

    fn from_json(j: &Json) -> (r: Option<T>) {
        if is_object(j) {
            return T::from_object(j);
        }
        match read_record(j, &T::field_names(), true) {
            Some(o) => T::from_object(&o),
            None => None,
        }
    }
}

/// The content of what was read, or not.
pub open spec fn opt_view<T: View>(o: Option<T>) -> Option<T::V> {
    match o {
        Some(x) => Some(x@),
        None => None,
    }
}

/// The contents of a list.
pub open spec fn views_of<T: View>(s: Seq<T>) -> Seq<T::V> {
    s.map_values(|x: T| x@)
}

/// The content of a list that was read, or not.
pub open spec fn opt_views<T: View>(o: Option<Vec<T>>) -> Option<Seq<T::V>> {
    match o {
        Some(v) => Some(views_of(v@)),
        None => None,
    }
}

/// The contents that the values of a list stand for, where every one of them
/// can be read.
pub open spec fn all_of<T: FromJson>(a: Seq<JsonView>) -> Option<Seq<T::V>>
    decreases a.len(),
{
    if a.len() == 0 {
        Some(seq![])
    } else {
        match (all_of::<T>(a.drop_last()), T::of(a.last())) {
            (Some(s), Some(x)) => Some(s.push(x)),
            _ => None,
        }
    }
}

/// A list that may be missing and is then empty; `None` where one of its values
/// cannot be read.
pub open spec fn list_at<T: FromJson>(j: JsonView, key: Seq<char>) -> Option<Seq<T::V>> {
    match member(j, key) {
        None => Some(seq![]),
        Some(JsonView::Array(a)) => all_of::<T>(a),
        _ => None,
    }
}

/// A value that may be missing; `None` where it cannot be read.
pub open spec fn opt_at<T: FromJson>(j: JsonView, key: Seq<char>) -> Option<Option<T::V>> {
    match member(j, key) {
        None => Some(None),
        Some(JsonView::Null) => Some(None),
        Some(x) => match T::of(x) {
            Some(v) => Some(Some(v)),
            None => None,
        },
    }
}

/// A list that begins with what cannot be read cannot be read.
proof fn lemma_all_of_none<T: FromJson>(a: Seq<JsonView>, n: int)
    requires
        0 <= n <= a.len(),
        all_of::<T>(a.take(n)) is None,
    ensures
        all_of::<T>(a) is None,
    decreases a.len() - n,
{
    if n < a.len() {
        assert(a.take(n + 1).drop_last() =~= a.take(n));
        lemma_all_of_none::<T>(a, n + 1);
    } else {
        assert(a.take(n) =~= a);
    }
}

/// Reads every value of a list.
pub fn read_all<T: FromJson>(a: &Vec<Json>) -> (r: Option<Vec<T>>)
    ensures
        opt_views(r) == all_of::<T>(crate::json::views(a@)),
{
    let mut out: Vec<T> = Vec::new();
    let mut i: usize = 0;
    let ghost all = crate::json::views(a@);
    assert(views_of(out@) =~= seq![]);
    assert(all.take(0) =~= seq![]);
    while i < a.len()
        invariant
            i <= a.len(),
            all == crate::json::views(a@),
            all_of::<T>(all.take(i as int)) == Some(views_of(out@)),
        decreases a.len() - i,
    {
        assert(all.take(i + 1).drop_last() =~= all.take(i as int));
        assert(all.take(i + 1).last() == a@[i as int]@);
        let ghost before = views_of(out@);
        match T::from_json(&a[i]) {
            Some(x) => {
                out.push(x);
                assert(views_of(out@) =~= before.push(x@));
            },
            None => {
                proof {
                    lemma_all_of_none::<T>(all, i + 1);
                }
                return None;
            },
        }
        i = i + 1;
    }
    assert(all.take(i as int) =~= all);
    Some(out)
}

/// Reads a list that may be missing.
pub fn read_list<T: FromJson>(j: &Json, key: &str) -> (r: Option<Vec<T>>)
    ensures
        opt_views(r) == list_at::<T>(j@, key@),
{
    match j.get(key) {
        None => {
            let out: Vec<T> = Vec::new();
            assert(views_of(out@) =~= seq![]);
            Some(out)
        },
        Some(x) => match x {
            Json::Array(a) => {
                proof {
                    crate::json::lemma_array_view(*x);
                }
                read_all::<T>(a)
            },
            _ => None,
        },
    }
}

/// The content of an optional value that was read, or not.
pub open spec fn opt_opt_view<T: View>(o: Option<Option<T>>) -> Option<Option<T::V>> {
    match o {
        Some(x) => Some(opt_view(x)),
        None => None,
    }
}

/// Reads a value that may be missing.
pub fn read_opt<T: FromJson>(j: &Json, key: &str) -> (r: Option<Option<T>>)
    ensures
        opt_opt_view(r) == opt_at::<T>(j@, key@),
{
    match j.get(key) {
        None => Some(None),
        Some(Json::Null) => Some(None),
        Some(x) => match T::from_json(x) {
            Some(v) => Some(Some(v)),
            None => None,
        },
    }
}

/// A string that may be missing and is then empty.
pub open spec fn str_or_empty_at(j: JsonView, key: Seq<char>) -> Option<Seq<char>> {
    match member(j, key) {
        None => Some(seq![]),
        Some(JsonView::Str(s)) => Some(s),
        _ => None,
    }
}

/// Reads a string that may be missing and is then empty.
pub fn read_str_or_empty(j: &Json, key: &str) -> (r: Option<String>)
    ensures
        crate::text::opt_text(r) == str_or_empty_at(j@, key@),
{
    match j.get(key) {
        None => {
            let s = String::new();
            assert(s@ =~= seq![]);
            Some(s)
        },
        Some(Json::Str(s)) => Some(s.clone()),
        _ => None,
    }
}

/// Whether a value is an object.
pub fn is_object(j: &Json) -> (r: bool)
    ensures
        r == (j@ is Object),
{
    match j {
        Json::Object(_) => true,
        _ => false,
    }
}

/// What the field `key` of an object holds.
pub open spec fn member(j: JsonView, key: Seq<char>) -> Option<JsonView> {
    match j {
        JsonView::Object(o) => crate::json::get(o, key),
        _ => None,
    }
}

/// A string that must be there.
pub open spec fn str_at(j: JsonView, key: Seq<char>) -> Option<Seq<char>> {
    match member(j, key) {
        Some(JsonView::Str(s)) => Some(s),
        _ => None,
    }
}

/// A truth value that must be there.
pub open spec fn bool_at(j: JsonView, key: Seq<char>) -> Option<bool> {
    match member(j, key) {
        Some(JsonView::Bool(b)) => Some(b),
        _ => None,
    }
}

/// An unsigned integer that must be there.
pub open spec fn u64_at(j: JsonView, key: Seq<char>) -> Option<u64> {
    match member(j, key) {
        Some(x) => crate::json::json_u64(x),
        None => None,
    }
}

/// A string that may be missing; `None` where the field holds something else.
pub open spec fn opt_str_at(j: JsonView, key: Seq<char>) -> Option<Option<Seq<char>>> {
    match member(j, key) {
        None => Some(None),
        Some(JsonView::Null) => Some(None),
        Some(JsonView::Str(s)) => Some(Some(s)),
        _ => None,
    }
}

/// An unsigned integer that may be missing; `None` where the field holds
/// something else.
pub open spec fn opt_u64_at(j: JsonView, key: Seq<char>) -> Option<Option<u64>> {
    match member(j, key) {
        None => Some(None),
        Some(JsonView::Null) => Some(None),
        Some(x) => match crate::json::json_u64(x) {
            Some(n) => Some(Some(n)),
            None => None,
        },
    }
}

/// The texts of a list of values that are all strings.
pub open spec fn all_strs(a: Seq<JsonView>) -> Option<Seq<Seq<char>>>
    decreases a.len(),
{
    if a.len() == 0 {
        Some(seq![])
    } else {
        match (all_strs(a.drop_last()), a.last()) {
            (Some(s), JsonView::Str(t)) => Some(s.push(t)),
            _ => None,
        }
    }
}

/// The values of a list of texts.
pub open spec fn strs_json(s: Seq<Seq<char>>) -> Seq<JsonView> {
    s.map_values(|t: Seq<char>| JsonView::Str(t))
}

/// A list of texts is found again in its values.
pub proof fn lemma_all_strs(s: Seq<Seq<char>>)
    ensures
        all_strs(strs_json(s)) == Some(s),
    decreases s.len(),
{
    if s.len() > 0 {
        lemma_all_strs(s.drop_last());
        assert(strs_json(s).drop_last() =~= strs_json(s.drop_last()));
        assert(s.drop_last().push(s.last()) =~= s);
    } else {
        assert(s =~= seq![]);
    }
}

/// A list of strings that must be there.
pub open spec fn strs_at(j: JsonView, key: Seq<char>) -> Option<Seq<Seq<char>>> {
    match member(j, key) {
        Some(JsonView::Array(a)) => all_strs(a),
        _ => None,
    }
}

/// Reads a string that must be there.
pub fn read_str(j: &Json, key: &str) -> (r: Option<String>)
    ensures
        crate::text::opt_text(r) == str_at(j@, key@),
{
    match j.get(key) {
        Some(Json::Str(s)) => Some(s.clone()),
        _ => None,
    }
}

/// Reads a truth value that must be there.
pub fn read_bool(j: &Json, key: &str) -> (r: Option<bool>)
    ensures
        r == bool_at(j@, key@),
{
    match j.get(key) {
        Some(Json::Bool(b)) => Some(*b),
        _ => None,
    }
}

/// Reads an unsigned integer that must be there.
pub fn read_u64(j: &Json, key: &str) -> (r: Option<u64>)
    ensures
        r == u64_at(j@, key@),
{
    match j.get(key) {
        Some(x) => x.as_u64(),
        None => None,
    }
}

/// The text of an optional string that was read, or not.
pub open spec fn opt_opt_text(o: Option<Option<String>>) -> Option<Option<Seq<char>>> {
    match o {
        Some(x) => Some(crate::text::opt_text(x)),
        None => None,
    }
}

/// Reads a string that may be missing.
pub fn read_opt_str(j: &Json, key: &str) -> (r: Option<Option<String>>)
    ensures
        opt_opt_text(r) == opt_str_at(j@, key@),
{
    match j.get(key) {
        None => Some(None),
        Some(Json::Null) => Some(None),
        Some(Json::Str(s)) => Some(Some(s.clone())),
        _ => None,
    }
}

/// Reads an unsigned integer that may be missing.
pub fn read_opt_u64(j: &Json, key: &str) -> (r: Option<Option<u64>>)
    ensures
        r == opt_u64_at(j@, key@),
{
    match j.get(key) {
        None => Some(None),
        Some(Json::Null) => Some(None),
        Some(x) => match x.as_u64() {
            Some(n) => Some(Some(n)),
            None => None,
        },
    }
}

/// The texts of a list of strings that was read, or not.
pub open spec fn opt_texts(o: Option<Vec<String>>) -> Option<Seq<Seq<char>>> {
    match o {
        Some(v) => Some(crate::text::texts(v@)),
        None => None,
    }
}

/// Reads the texts of a list of values that must all be strings.
pub fn read_all_strs(a: &Vec<Json>) -> (r: Option<Vec<String>>)
    ensures
        opt_texts(r) == all_strs(crate::json::views(a@)),
{
    let mut out: Vec<String> = Vec::new();
    let mut i: usize = 0;
    let ghost all = crate::json::views(a@);
    assert(crate::text::texts(out@) =~= seq![]);
    assert(all.take(0) =~= seq![]);
    while i < a.len()
        invariant
            i <= a.len(),
            all == crate::json::views(a@),
            all_strs(all.take(i as int)) == Some(crate::text::texts(out@)),
        decreases a.len() - i,
    {
        let ghost part = all.take(i + 1);
        assert(part.drop_last() =~= all.take(i as int));
        assert(part.last() == a@[i as int]@);
        match &a[i] {
            Json::Str(s) => {
                let ghost before = crate::text::texts(out@);
                let t = s.clone();
                out.push(t);
                assert(crate::text::texts(out@) =~= before.push(t@));
            },
            _ => {
                proof {
                    lemma_all_strs_none(all, i + 1);
                }
                return None;
            },
        }
        i = i + 1;
    }
    assert(all.take(i as int) =~= all);
    Some(out)
}

/// A list that begins badly is not a list of strings.
proof fn lemma_all_strs_none(a: Seq<JsonView>, n: int)
    requires
        0 <= n <= a.len(),
        all_strs(a.take(n)) is None,
    ensures
        all_strs(a) is None,
    decreases a.len() - n,
{
    if n < a.len() {
        assert(a.take(n + 1).drop_last() =~= a.take(n));
        lemma_all_strs_none(a, n + 1);
    } else {
        assert(a.take(n) =~= a);
    }
}

/// Reads a list of strings that must be there.
pub fn read_strs(j: &Json, key: &str) -> (r: Option<Vec<String>>)
    ensures
        opt_texts(r) == strs_at(j@, key@),
{
    match j.get(key) {
        Some(x) => match x {
            Json::Array(a) => {
                proof {
                    crate::json::lemma_array_view(*x);
                }
                read_all_strs(a)
            },
            _ => None,
        },
        None => None,
    }
}

/// The JSON array of a list of strings.
pub fn strs_to_json(v: &Vec<String>) -> (r: Json)
    ensures
        r@ == JsonView::Array(strs_json(crate::text::texts(v@))),
{
    let mut out: Vec<Json> = Vec::new();
    let mut i: usize = 0;
    while i < v.len()
        invariant
            i <= v.len(),
            out@.len() == i,
            forall|k: int| 0 <= k < i ==> (#[trigger] out@[k])@ == JsonView::Str(v@[k]@),
        decreases v.len() - i,
    {
        out.push(Json::Str(v[i].clone()));
        i = i + 1;
    }
    let r = Json::Array(out);
    proof {
        crate::json::lemma_array_view(r);
        assert(crate::json::views(out@) =~= strs_json(crate::text::texts(v@)));
    }
    r
}

/// The value of an optional string: its text or `null`.
pub open spec fn nullable(o: Option<Seq<char>>) -> JsonView {
    match o {
        Some(s) => JsonView::Str(s),
        None => JsonView::Null,
    }
}

/// The JSON value of an optional string.
pub fn opt_to_json(o: &Option<String>) -> (r: Json)
    ensures
        r@ == nullable(crate::text::opt_text(*o)),
{
    match o {
        Some(s) => Json::Str(s.clone()),
        None => Json::Null,
    }
}

/// Whether a list of names holds every key of an object.
pub open spec fn only_keys(o: Seq<crate::json::FieldView>, names: Seq<Seq<char>>) -> bool {
    forall|i: int| 0 <= i < o.len() ==> names.contains((#[trigger] o[i]).key)
}

/// The fields of `names` with the values of a list, in their order.
pub open spec fn zipped(names: Seq<Seq<char>>, a: Seq<JsonView>) -> Seq<crate::json::FieldView> {
    Seq::new(
        if a.len() < names.len() {
            a.len()
        } else {
            names.len()
        },
        |i: int| crate::json::entry(names[i], a[i]),
    )
}

/// The record that a value stands for: an object, or a list with the values of
/// the fields in their order, of which the last may be missing. With `exact` a
/// longer list is refused; otherwise what is too much is ignored.
pub open spec fn record(j: JsonView, names: Seq<Seq<char>>, exact: bool) -> Option<JsonView> {
    match j {
        JsonView::Object(_) => Some(j),
        JsonView::Array(a) => if exact && a.len() > names.len() {
            None
        } else {
            Some(JsonView::Object(zipped(names, a)))
        },
        _ => None,
    }
}

/// The texts of a list of string slices.
pub open spec fn names_of(v: Seq<&str>) -> Seq<Seq<char>> {
    v.map_values(|s: &str| s@)
}

/// The record that a value stands for.
pub fn read_record(j: &Json, names: &Vec<&str>, exact: bool) -> (r: Option<Json>)
    ensures
        opt_view(r) == record(j@, names_of(names@), exact),
{
    match j {
        Json::Object(_) => Some(j.copy()),
        Json::Array(a) => {
            proof {
                crate::json::lemma_array_view(*j);
            }
            if exact && a.len() > names.len() {
                return None;
            }
            let mut out: Vec<crate::json::Field> = Vec::new();
            let mut i: usize = 0;
            while i < a.len() && i < names.len()
                invariant
                    i <= a.len(),
                    i <= names.len(),
                    out@.len() == i,
                    forall|k: int|
                        0 <= k < i ==> (#[trigger] out@[k]).key@ == names@[k]@ && out@[k].value@
                            == a@[k]@,
                decreases a.len() - i,
            {
                out.push(
                    crate::json::Field { key: names[i].to_owned(), value: a[i].copy() },
                );
                i = i + 1;
            }
            let r = Json::Object(out);
            proof {
                crate::json::lemma_object_view(r);
                assert(crate::json::field_views(out@) =~= zipped(
                    names_of(names@),
                    crate::json::views(a@),
                ));
            }
            Some(r)
        },
        _ => None,
    }
}

/// Whether a list of names holds every key of an object.
pub fn has_only_keys(j: &Json, names: &Vec<&str>) -> (r: bool)
    ensures
        r == (j@ matches JsonView::Object(o) ==> only_keys(o, names_of(names@))),
{
    match j {
        Json::Object(v) => {
            proof {
                crate::json::lemma_object_view(*j);
            }
            let ghost o = j@->Object_0;
            let mut i: usize = 0;
            while i < v.len()
                invariant
                    i <= v.len(),
                    j@ == JsonView::Object(o),
                    o == crate::json::field_views(v@),
                    forall|k: int|
                        0 <= k < i ==> names_of(names@).contains((#[trigger] o[k]).key),
                decreases v.len() - i,
            {
                let mut found: bool = false;
                let mut k: usize = 0;
                assert(o[i as int].key == v@[i as int].key@);
                while k < names.len() && !found
                    invariant
                        i < v.len(),
                        k <= names.len(),
                        o[i as int].key == v@[i as int].key@,
                        found ==> names_of(names@).contains(o[i as int].key),
                        !found ==> forall|n: int|
                            0 <= n < k ==> #[trigger] names_of(names@)[n] != o[i as int].key,
                    decreases names.len() - k + (if found { 0int } else { 1int }),
                {
                    if crate::text::same(names[k], v[i].key.as_str()) {
                        assert(names_of(names@)[k as int] == o[i as int].key);
                        found = true;
                    } else {
                        k = k + 1;
                    }
                }
                if !found {
                    assert(!names_of(names@).contains(o[i as int].key));
                    return false;
                }
                i = i + 1;
            }
            true
        },
        _ => true,
    }
}

/// A string, `default` where it is missing.
pub open spec fn str_or(j: JsonView, key: Seq<char>, default: Seq<char>) -> Option<Seq<char>> {
    match member(j, key) {
        None => Some(default),
        Some(JsonView::Str(s)) => Some(s),
        _ => None,
    }
}

/// A truth value, `default` where it is missing.
pub open spec fn bool_or(j: JsonView, key: Seq<char>, default: bool) -> Option<bool> {
    match member(j, key) {
        None => Some(default),
        Some(JsonView::Bool(b)) => Some(b),
        _ => None,
    }
}

/// An unsigned integer up to `max`, `default` where it is missing.
pub open spec fn uint_or(j: JsonView, key: Seq<char>, default: u64, max: u64) -> Option<u64> {
    match member(j, key) {
        None => Some(default),
        Some(JsonView::U64(n)) => if n <= max {
            Some(n)
        } else {
            None
        },
        _ => None,
    }
}

/// Reads a string that may be missing.
pub fn read_str_or(j: &Json, key: &str, default: &str) -> (r: Option<String>)
    ensures
        crate::text::opt_text(r) == str_or(j@, key@, default@),
{
    match j.get(key) {
        None => Some(default.to_owned()),
        Some(Json::Str(s)) => Some(s.clone()),
        _ => None,
    }
}

/// Reads a truth value that may be missing.
pub fn read_bool_or(j: &Json, key: &str, default: bool) -> (r: Option<bool>)
    ensures
        r == bool_or(j@, key@, default),
{
    match j.get(key) {
        None => Some(default),
        Some(Json::Bool(b)) => Some(*b),
        _ => None,
    }
}

/// Reads an unsigned integer that may be missing.
pub fn read_uint_or(j: &Json, key: &str, default: u64, max: u64) -> (r: Option<u64>)
    ensures
        r == uint_or(j@, key@, default, max),
{
    match j.get(key) {
        None => Some(default),
        Some(x) => match x.as_u64() {
            Some(n) => if n <= max {
                Some(n)
            } else {
                None
            },
            None => None,
        },
    }
}

/// A string that may be missing but not `null`.
pub open spec fn some_str_at(j: JsonView, key: Seq<char>) -> Option<Option<Seq<char>>> {
    match member(j, key) {
        None => Some(None),
        Some(JsonView::Str(s)) => Some(Some(s)),
        _ => None,
    }
}

/// Reads a string that may be missing but not `null`.
pub fn read_some_str(j: &Json, key: &str) -> (r: Option<Option<String>>)
    ensures
        opt_opt_text(r) == some_str_at(j@, key@),
{
    match j.get(key) {
        None => Some(None),
        Some(Json::Str(s)) => Some(Some(s.clone())),
        _ => None,
    }
}

/// A list of strings that may be missing and is then empty.
pub open spec fn strs_or_empty_at(j: JsonView, key: Seq<char>) -> Option<Seq<Seq<char>>> {
    match member(j, key) {
        None => Some(seq![]),
        Some(JsonView::Array(a)) => all_strs(a),
        _ => None,
    }
}

/// Reads a list of strings that may be missing.
pub fn read_strs_or_empty(j: &Json, key: &str) -> (r: Option<Vec<String>>)
    ensures
        opt_texts(r) == strs_or_empty_at(j@, key@),
{
    match j.get(key) {
        None => {
            let out: Vec<String> = Vec::new();
            assert(crate::text::texts(out@) =~= seq![]);
            Some(out)
        },
        Some(x) => match x {
            Json::Array(a) => {
                proof {
                    crate::json::lemma_array_view(*x);
                }
                read_all_strs(a)
            },
            _ => None,
        },
    }
}

/// A list of values that can be read one by one is read as a whole.
pub proof fn lemma_all_of<T: FromJson>(a: Seq<JsonView>, x: Seq<T::V>)
    requires
        a.len() == x.len(),
        forall|i: int| 0 <= i < a.len() ==> T::of(#[trigger] a[i]) == Some(x[i]),
    ensures
        all_of::<T>(a) == Some(x),
    decreases a.len(),
{
    if a.len() > 0 {
        let b = a.drop_last();
        let y = x.drop_last();
        assert forall|i: int| 0 <= i < b.len() implies T::of(#[trigger] b[i]) == Some(y[i]) by {
            assert(b[i] == a[i]);
        }
        lemma_all_of::<T>(b, y);
        assert(a[a.len() - 1] == a.last());
        assert(y.push(x.last()) =~= x);
    } else {
        assert(x =~= seq![]);
    }
}

/// The field of a text that is there.
pub open spec fn text_field(key: Seq<char>, o: Option<Seq<char>>) -> Seq<crate::json::FieldView> {
    match o {
        Some(s) => seq![crate::json::entry(key, JsonView::Str(s))],
        None => seq![],
    }
}

} // verus!
