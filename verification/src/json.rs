//! JSON documents as the library reads and edits them: a value type whose
//! numbers keep their text, its mathematical view, field access, and the
//! parse and serialization calls into `serde_json`.

use crate::numbers::{all_digits, digits_value};
use crate::text::{chars_of, dec_chars, dec_string, str_eq};
use vstd::prelude::*;

verus! {

#[verifier::external_type_specification]
#[verifier::external_body]
pub struct ExSerdeJsonValue(serde_json::Value);

/// A JSON value. Numbers are kept as the text `serde_json` prints for
/// them. Object members are a list: a document read by `serde_json` lists
/// them sorted by key, one per key (the last of duplicates); members added
/// by the library keep the order they were added in, and the order does
/// not matter once written out, where keys come sorted again.
#[derive(Debug)]
pub enum JsonValue {
    Null,
    Bool(bool),
    Number(String),
    Str(String),
    Array(Vec<JsonValue>),
    Object(Vec<(String, JsonValue)>),
}

/// A JSON value as the contracts read it.
pub enum JsonView {
    Null,
    Bool(bool),
    Number(Seq<char>),
    Str(Seq<char>),
    Array(Seq<JsonView>),
    Object(Seq<(Seq<char>, JsonView)>),
}

/// The view of a JSON value.
pub open spec fn json_view(v: JsonValue) -> JsonView
    decreases v, 0int,
{
    match v {
        JsonValue::Null => JsonView::Null,
        JsonValue::Bool(b) => JsonView::Bool(b),
        JsonValue::Number(t) => JsonView::Number(t@),
        JsonValue::Str(s) => JsonView::Str(s@),
        JsonValue::Array(a) => JsonView::Array(item_views(a@, a@.len() as int)),
        JsonValue::Object(m) => JsonView::Object(member_views(m@, m@.len() as int)),
    }
}

/// The views of the first `n` items.
pub open spec fn item_views(s: Seq<JsonValue>, n: int) -> Seq<JsonView>
    decreases s, n,
{
    if n <= 0 || n > s.len() {
        Seq::empty()
    } else {
        item_views(s, n - 1).push(json_view(s[n - 1]))
    }
}

/// The views of the first `n` members.
pub open spec fn member_views(s: Seq<(String, JsonValue)>, n: int) -> Seq<(Seq<char>, JsonView)>
    decreases s, n,
{
    if n <= 0 || n > s.len() {
        Seq::empty()
    } else {
        member_views(s, n - 1).push((s[n - 1].0@, json_view(s[n - 1].1)))
    }
}

/// The document `serde_json` reads from `text`, or the text of its error.
pub uninterp spec fn json_doc(text: Seq<char>) -> Result<JsonView, Seq<char>>;

/// The compact text `serde_json` writes for a value.
pub uninterp spec fn json_compact(v: JsonView) -> Seq<u8>;

/// The indented text `serde_json` writes for a value.
pub uninterp spec fn json_pretty(v: JsonView) -> Seq<char>;

/// Conversion of a `serde_json::Value` into a `JsonValue`, variant for
/// variant (numbers by their printed text); used by `parse_json` only.
#[verifier::external_body]
fn value_to_json(v: &serde_json::Value) -> JsonValue {
    match v {
        serde_json::Value::Null => JsonValue::Null,
        serde_json::Value::Bool(b) => JsonValue::Bool(*b),
        serde_json::Value::Number(n) => JsonValue::Number(n.to_string()),
        serde_json::Value::String(s) => JsonValue::Str(s.clone()),
        serde_json::Value::Array(a) => JsonValue::Array(a.iter().map(value_to_json).collect()),
        serde_json::Value::Object(m) => JsonValue::Object(m.iter().map(|(k, x)| (k.clone(), value_to_json(x))).collect()),
    }
}

/// Conversion of a `JsonValue` into a `serde_json::Value`, variant for
/// variant (number text read back by `Number::from_str`, text that is no
/// number becoming null); used by `json_bytes` and `json_pretty_text` only.
#[verifier::external_body]
fn json_to_value(v: &JsonValue) -> serde_json::Value {
    match v {
        JsonValue::Null => serde_json::Value::Null,
        JsonValue::Bool(b) => serde_json::Value::Bool(*b),
        JsonValue::Number(t) => t.parse::<serde_json::Number>().map(serde_json::Value::Number).unwrap_or(serde_json::Value::Null),
        JsonValue::Str(s) => serde_json::Value::String(s.clone()),
        JsonValue::Array(a) => serde_json::Value::Array(a.iter().map(json_to_value).collect()),
        JsonValue::Object(m) => serde_json::Value::Object(m.iter().map(|(k, x)| (k.clone(), json_to_value(x))).collect()),
    }
}

/// `serde_json::from_str::<Value>`: the document the text holds, or the
/// text of the parse error. What it reads is named, not spelled out.
#[verifier::external_body]
pub(crate) fn parse_json(text: &str) -> (r: Result<JsonValue, String>)
    ensures
        match (r, json_doc(text@)) {
            (Ok(v), Ok(d)) => json_view(v) == d,
            (Err(e), Err(m)) => e@ == m,
            _ => false,
        },
{
    match serde_json::from_str::<serde_json::Value>(text) {
        Ok(v) => Ok(value_to_json(&v)),
        Err(e) => Err(e.to_string()),
    }
}

/// `serde_json::to_vec`: the compact text of the value (writing a `Value`
/// cannot fail, so the empty result of a failure never occurs).
#[verifier::external_body]
pub(crate) fn json_bytes(v: &JsonValue) -> (r: Vec<u8>)
    ensures
        r@ == json_compact(json_view(*v)),
{
    serde_json::to_vec(&json_to_value(v)).unwrap_or_default()
}

/// `serde_json::to_string_pretty`: the indented text of the value (it
/// cannot fail for a `Value`).
#[verifier::external_body]
pub(crate) fn json_pretty_text(v: &JsonValue) -> (r: String)
    ensures
        r@ == json_pretty(json_view(*v)),
{
    serde_json::to_string_pretty(&json_to_value(v)).unwrap_or_default()
}

// ---- reading fields ----

/// The value of the first member named `k`.
pub open spec fn member_get(m: Seq<(Seq<char>, JsonView)>, k: Seq<char>) -> Option<JsonView> {
    match member_index(m, k) {
        Some(i) => Some(m[i].1),
        None => None,
    }
}

/// The members of an object (none for any other value).
pub open spec fn members(v: JsonView) -> Seq<(Seq<char>, JsonView)> {
    match v {
        JsonView::Object(m) => m,
        _ => Seq::empty(),
    }
}

/// The field `k` of an object (none for any other value).
pub open spec fn field(v: JsonView, k: Seq<char>) -> Option<JsonView> {
    member_get(members(v), k)
}

/// The items of a value when it is an array, else none.
pub open spec fn items(o: Option<JsonView>) -> Seq<JsonView> {
    match o {
        Some(JsonView::Array(a)) => a,
        _ => Seq::empty(),
    }
}

/// The members of a value when it is an object, else none.
pub open spec fn opt_members(o: Option<JsonView>) -> Seq<(Seq<char>, JsonView)> {
    match o {
        Some(v) => members(v),
        None => Seq::empty(),
    }
}

/// The value as an unsigned 64-bit integer: a number written as plain
/// decimal digits that fits.
pub open spec fn u64_of(o: Option<JsonView>) -> Option<u64> {
    match o {
        Some(JsonView::Number(t)) => if t.len() > 0 && all_digits(t) && digits_value(t) <= u64::MAX {
            Some(digits_value(t) as u64)
        } else {
            None
        },
        _ => None,
    }
}

/// The value as text, when it is a string.
pub open spec fn str_of(o: Option<JsonView>) -> Option<Seq<char>> {
    match o {
        Some(JsonView::Str(s)) => Some(s),
        _ => None,
    }
}

/// The number `n`.
pub open spec fn num(n: nat) -> JsonView {
    JsonView::Number(dec_chars(n))
}

/// Where the first member named `k` is.
pub open spec fn member_index(m: Seq<(Seq<char>, JsonView)>, k: Seq<char>) -> Option<int>
    decreases m.len(),
{
    if m.len() == 0 {
        None
    } else if m.last().0 == k && member_index(m.drop_last(), k) is None {
        Some(m.len() - 1)
    } else {
        member_index(m.drop_last(), k)
    }
}

/// The members with `k` set to `v`: the first member named `k` takes the
/// value in place; without one, the member is added at the end.
pub open spec fn member_set(m: Seq<(Seq<char>, JsonView)>, k: Seq<char>, v: JsonView) -> Seq<(Seq<char>, JsonView)> {
    match member_index(m, k) {
        Some(i) => m.update(i, (k, v)),
        None => m.push((k, v)),
    }
}

/// The members without those named `k`.
pub open spec fn member_remove(m: Seq<(Seq<char>, JsonView)>, k: Seq<char>) -> Seq<(Seq<char>, JsonView)>
    decreases m.len(),
{
    if m.len() == 0 {
        Seq::empty()
    } else if m.last().0 == k {
        member_remove(m.drop_last(), k)
    } else {
        member_remove(m.drop_last(), k).push(m.last())
    }
}

proof fn lemma_item_views(s: Seq<JsonValue>, n: int)
    requires
        0 <= n <= s.len(),
    ensures
        item_views(s, n).len() == n,
        forall|i: int| 0 <= i < n ==> #[trigger] item_views(s, n)[i] == json_view(s[i]),
    decreases n,
{
    if n > 0 {
        lemma_item_views(s, n - 1);
    }
}

proof fn lemma_member_views(s: Seq<(String, JsonValue)>, n: int)
    requires
        0 <= n <= s.len(),
    ensures
        member_views(s, n).len() == n,
        forall|i: int|
            0 <= i < n ==> #[trigger] member_views(s, n)[i] == (s[i].0@, json_view(s[i].1)),
    decreases n,
{
    if n > 0 {
        lemma_member_views(s, n - 1);
    }
}

/// The items of an array value, viewed.
pub proof fn lemma_array_view(a: Vec<JsonValue>)
    ensures
        json_view(JsonValue::Array(a)) == JsonView::Array(item_views(a@, a@.len() as int)),
        item_views(a@, a@.len() as int).len() == a@.len(),
        forall|i: int| 0 <= i < a@.len() ==> #[trigger] item_views(a@, a@.len() as int)[i] == json_view(a@[i]),
{
    lemma_item_views(a@, a@.len() as int);
}

/// The members of an object value, viewed.
pub proof fn lemma_object_view(m: Vec<(String, JsonValue)>)
    ensures
        json_view(JsonValue::Object(m)) == JsonView::Object(member_views(m@, m@.len() as int)),
        member_views(m@, m@.len() as int).len() == m@.len(),
        forall|i: int|
            0 <= i < m@.len() ==> #[trigger] member_views(m@, m@.len() as int)[i] == (m@[i].0@, json_view(m@[i].1)),
{
    lemma_member_views(m@, m@.len() as int);
}

/// A copy of a value with the same view.
pub fn json_clone(v: &JsonValue) -> (r: JsonValue)
    ensures
        json_view(r) == json_view(*v),
    decreases v,
{
    match v {
        JsonValue::Null => JsonValue::Null,
        JsonValue::Bool(b) => JsonValue::Bool(*b),
        JsonValue::Number(t) => JsonValue::Number(t.clone()),
        JsonValue::Str(s) => JsonValue::Str(s.clone()),
        JsonValue::Array(a) => {
            let mut out: Vec<JsonValue> = Vec::new();
            let mut i: usize = 0;
            while i < a.len()
                invariant
                    *v == JsonValue::Array(*a),
                    i <= a@.len(),
                    out@.len() == i,
                    forall|j: int| 0 <= j < i ==> json_view(#[trigger] out@[j]) == json_view(a@[j]),
                decreases a@.len() - i,
            {
                proof {
                    assert(decreases_to!(*v => (*v)->Array_0));
                    assert(decreases_to!(*a => a[i as int]));
                    assert(decreases_to!(*v => a[i as int]));
                }
                let c = json_clone(&a[i]);
                out.push(c);
                i += 1;
            }
            proof {
                lemma_array_view(*a);
                lemma_array_view(out);
                assert(item_views(out@, out@.len() as int) =~= item_views(a@, a@.len() as int));
            }
            JsonValue::Array(out)
        },
        JsonValue::Object(m) => {
            let mut out: Vec<(String, JsonValue)> = Vec::new();
            let mut i: usize = 0;
            while i < m.len()
                invariant
                    *v == JsonValue::Object(*m),
                    i <= m@.len(),
                    out@.len() == i,
                    forall|j: int|
                        0 <= j < i ==> (#[trigger] out@[j]).0@ == m@[j].0@ && json_view(out@[j].1) == json_view(
                            m@[j].1,
                        ),
                decreases m@.len() - i,
            {
                proof {
                    assert(decreases_to!(*v => (*v)->Object_0));
                    assert(decreases_to!(*m => m[i as int]));
                    assert(decreases_to!(m[i as int] => m[i as int].1));
                    assert(decreases_to!(*v => m[i as int].1));
                }
                let c = json_clone(&m[i].1);
                out.push((m[i].0.clone(), c));
                i += 1;
            }
            proof {
                lemma_object_view(*m);
                lemma_object_view(out);
                assert(member_views(out@, out@.len() as int) =~= member_views(m@, m@.len() as int));
            }
            JsonValue::Object(out)
        },
    }
}

/// The views of a member list.
pub open spec fn mviews(m: Vec<(String, JsonValue)>) -> Seq<(Seq<char>, JsonView)> {
    member_views(m@, m@.len() as int)
}

/// The views of an item list.
pub open spec fn iviews(a: Vec<JsonValue>) -> Seq<JsonView> {
    item_views(a@, a@.len() as int)
}

/// An optional value, viewed.
pub open spec fn opt_view(o: Option<&JsonValue>) -> Option<JsonView> {
    match o {
        Some(x) => Some(json_view(*x)),
        None => None,
    }
}

/// `i` is where the first member named `k` is.
pub open spec fn first_key_at(m: Seq<(Seq<char>, JsonView)>, k: Seq<char>, i: int) -> bool {
    &&& 0 <= i < m.len()
    &&& m[i].0 == k
    &&& forall|j: int| 0 <= j < i ==> #[trigger] m[j].0 != k
}

proof fn lemma_member_index(m: Seq<(Seq<char>, JsonView)>, k: Seq<char>)
    ensures
        forall|i: int| first_key_at(m, k, i) ==> member_index(m, k) == Some(i),
        (forall|j: int| 0 <= j < m.len() ==> #[trigger] m[j].0 != k) ==> member_index(m, k) is None,
        member_index(m, k) matches Some(i) ==> first_key_at(m, k, i),
        member_index(m, k) is None ==> forall|j: int| 0 <= j < m.len() ==> #[trigger] m[j].0 != k,
    decreases m.len(),
{
    if m.len() > 0 {
        let d = m.drop_last();
        lemma_member_index(d, k);
        assert forall|i: int| first_key_at(m, k, i) implies member_index(m, k) == Some(i) by {
            if i < m.len() - 1 {
                assert(first_key_at(d, k, i));
            } else {
                assert forall|j: int| 0 <= j < d.len() implies #[trigger] d[j].0 != k by {
                    assert(d[j] == m[j]);
                }
            }
        }
        if forall|j: int| 0 <= j < m.len() ==> #[trigger] m[j].0 != k {
            assert forall|j: int| 0 <= j < d.len() implies #[trigger] d[j].0 != k by {
                assert(d[j] == m[j]);
            }
            assert(m[m.len() - 1].0 != k);
        }
        match member_index(m, k) {
            Some(i) => {
                if member_index(d, k) is None {
                    assert forall|j: int| 0 <= j < i implies #[trigger] m[j].0 != k by {
                        if m[j].0 == k {
                            assert(d[j].0 == k);
                        }
                    }
                } else {
                    assert forall|j: int| 0 <= j < i implies #[trigger] m[j].0 != k by {
                        assert(d[j] == m[j]);
                    }
                }
            },
            None => {
                assert forall|j: int| 0 <= j < m.len() implies #[trigger] m[j].0 != k by {
                    if j < m.len() - 1 {
                        assert(d[j] == m[j]);
                    }
                }
            },
        }
    }
}

/// The value of the first member named `k`.
pub(crate) fn members_get<'a>(m: &'a Vec<(String, JsonValue)>, k: &str) -> (r: Option<&'a JsonValue>)
    ensures
        opt_view(r) == member_get(mviews(*m), k@),
{
    proof {
        lemma_object_view(*m);
        lemma_member_index(mviews(*m), k@);
    }
    let ghost mv = mviews(*m);
    let mut i: usize = 0;
    while i < m.len()
        invariant
            i <= m@.len(),
            mv == mviews(*m),
            mv.len() == m@.len(),
            forall|j: int| 0 <= j < m@.len() ==> #[trigger] mv[j] == (m@[j].0@, json_view(m@[j].1)),
            forall|j: int| 0 <= j < i ==> #[trigger] mv[j].0 != k@,
        decreases m@.len() - i,
    {
        if str_eq(m[i].0.as_str(), k) {
            proof {
                lemma_member_index(mv, k@);
                assert(first_key_at(mv, k@, i as int));
            }
            return Some(&m[i].1);
        }
        i += 1;
    }
    None
}

/// The field `k` of a value (none unless it is an object with that member).
pub fn get_field<'a>(v: &'a JsonValue, k: &str) -> (r: Option<&'a JsonValue>)
    ensures
        opt_view(r) == field(json_view(*v), k@),
{
    match v {
        JsonValue::Object(m) => {
            proof {
                lemma_object_view(*m);
            }
            members_get(m, k)
        },
        _ => None,
    }
}

/// The items of a value when it is an array.
pub fn array_items<'a>(o: Option<&'a JsonValue>) -> (r: Option<&'a Vec<JsonValue>>)
    ensures
        match r {
            Some(a) => items(opt_view(o)) == iviews(*a) && iviews(*a).len() == a@.len() && forall|j: int|
                0 <= j < a@.len() ==> #[trigger] iviews(*a)[j] == json_view(a@[j]),
            None => items(opt_view(o)) == Seq::<JsonView>::empty(),
        },
{
    match o {
        Some(JsonValue::Array(a)) => {
            proof {
                lemma_array_view(*a);
            }
            Some(a)
        },
        _ => None,
    }
}

/// The members of a value when it is an object.
pub fn object_members<'a>(o: Option<&'a JsonValue>) -> (r: Option<&'a Vec<(String, JsonValue)>>)
    ensures
        match r {
            Some(m) => opt_members(opt_view(o)) == mviews(*m) && mviews(*m).len() == m@.len() && forall|j: int|
                0 <= j < m@.len() ==> #[trigger] mviews(*m)[j] == (m@[j].0@, json_view(m@[j].1)),
            None => opt_members(opt_view(o)) == Seq::<(Seq<char>, JsonView)>::empty(),
        },
{
    match o {
        Some(JsonValue::Object(m)) => {
            proof {
                lemma_object_view(*m);
            }
            Some(m)
        },
        _ => None,
    }
}

/// The value as an unsigned 64-bit integer.
pub fn u64_value(o: Option<&JsonValue>) -> (r: Option<u64>)
    ensures
        r == u64_of(opt_view(o)),
{
    match o {
        Some(JsonValue::Number(t)) => {
            let c = chars_of(t.as_str());
            if c.len() == 0 || c[0] == '+' {
                proof {
                    if t@.len() > 0 {
                        assert(!crate::numbers::is_digit(t@[0]));
                    }
                }
                return None;
            }
            let r = crate::numbers::parse_u64(t.as_str());
            proof {
                assert(t@[0] != '+');
            }
            match r {
                Some(n) => Some(n),
                None => None,
            }
        },
        _ => None,
    }
}

/// The value as text, when it is a string.
pub fn str_value<'a>(o: Option<&'a JsonValue>) -> (r: Option<&'a str>)
    ensures
        match r {
            Some(s) => str_of(opt_view(o)) == Some(s@),
            None => str_of(opt_view(o)) is None,
        },
{
    match o {
        Some(JsonValue::Str(s)) => Some(s.as_str()),
        _ => None,
    }
}

/// The number `n` as a value.
pub fn number(n: u64) -> (r: JsonValue)
    ensures
        json_view(r) == num(n as nat),
{
    JsonValue::Number(dec_string(n))
}

/// Set member `k` to `v`: in place of the first member named `k`, else
/// added at the end.
pub fn members_set(m: &mut Vec<(String, JsonValue)>, k: &str, v: JsonValue)
    ensures
        mviews(*final(m)) == member_set(mviews(*old(m)), k@, json_view(v)),
{
    proof {
        lemma_object_view(*m);
        lemma_member_index(mviews(*m), k@);
    }
    let ghost mv = mviews(*m);
    let ghost vv = json_view(v);
    let mut i: usize = 0;
    while i < m.len()
        invariant
            i <= m@.len(),
            mv == mviews(*old(m)),
            vv == json_view(v),
            *m == *old(m),
            mv.len() == m@.len(),
            forall|j: int| 0 <= j < m@.len() ==> #[trigger] mv[j] == (m@[j].0@, json_view(m@[j].1)),
            forall|j: int| 0 <= j < i ==> #[trigger] mv[j].0 != k@,
        decreases m@.len() - i,
    {
        if str_eq(m[i].0.as_str(), k) {
            proof {
                lemma_member_index(mv, k@);
                assert(first_key_at(mv, k@, i as int));
            }
            let ghost before = m@;
            assert(forall|j: int| 0 <= j < before.len() ==> #[trigger] mv[j] == (before[j].0@, json_view(before[j].1)));
            let key = k.to_owned();
            assert(key@ == k@);
            m.set(i, (key, v));
            proof {
                lemma_object_view(*m);
                assert forall|j: int| 0 <= j < mv.len() implies #[trigger] mviews(*m)[j] == mv.update(
                    i as int,
                    (k@, vv),
                )[j] by {
                    if j != i {
                        assert(m@[j] == before[j]);
                        assert(mv[j] == (before[j].0@, json_view(before[j].1)));
                    } else {
                        assert(m@[j].0@ == k@);
                        assert(json_view(m@[j].1) == vv);
                    }
                }
                assert(mviews(*m) =~= mv.update(i as int, (k@, vv)));
            }
            return;
        }
        i += 1;
    }
    let ghost before = m@;
    m.push((k.to_owned(), v));
    proof {
        lemma_member_index(mv, k@);
        lemma_object_view(*m);
        assert forall|j: int| 0 <= j < mv.len() implies #[trigger] mviews(*m)[j] == mv[j] by {
            assert(m@[j] == before[j]);
        }
        assert(mviews(*m) =~= mv.push((k@, vv)));
    }
}

proof fn lemma_member_remove(m: Seq<(Seq<char>, JsonView)>, k: Seq<char>, i: int)
    requires
        0 <= i < m.len(),
    ensures
        member_remove(m.take(i + 1), k) == if m[i].0 == k {
            member_remove(m.take(i), k)
        } else {
            member_remove(m.take(i), k).push(m[i])
        },
{
    assert(m.take(i + 1).drop_last() =~= m.take(i));
}

/// The members without those named `k`.
pub fn members_remove(m: &Vec<(String, JsonValue)>, k: &str) -> (r: Vec<(String, JsonValue)>)
    ensures
        mviews(r) == member_remove(mviews(*m), k@),
{
    proof {
        lemma_object_view(*m);
    }
    let ghost mv = mviews(*m);
    let mut out: Vec<(String, JsonValue)> = Vec::new();
    let mut i: usize = 0;
    proof {
        lemma_object_view(out);
        assert(mv.take(0) =~= Seq::<(Seq<char>, JsonView)>::empty());
    }
    while i < m.len()
        invariant
            i <= m@.len(),
            mv == mviews(*m),
            mv.len() == m@.len(),
            forall|j: int| 0 <= j < m@.len() ==> #[trigger] mv[j] == (m@[j].0@, json_view(m@[j].1)),
            mviews(out) == member_remove(mv.take(i as int), k@),
        decreases m@.len() - i,
    {
        proof {
            lemma_member_remove(mv, k@, i as int);
        }
        if !str_eq(m[i].0.as_str(), k) {
            let ghost before = mviews(out);
            let ghost old_out = out@;
            proof {
                lemma_object_view(out);
            }
            let c = json_clone(&m[i].1);
            out.push((m[i].0.clone(), c));
            proof {
                lemma_object_view(out);
                assert forall|j: int| 0 <= j < before.len() implies #[trigger] mviews(out)[j] == before[j] by {
                    assert(out@[j] == old_out[j]);
                }
                assert(mviews(out) =~= before.push(mv[i as int]));
            }
        }
        i += 1;
    }
    assert(mv.take(m@.len() as int) =~= mv);
    out
}

} // verus!
