//! A JSON document held as plain values, and the operations the commands
//! perform on it.

use vstd::prelude::*;
use crate::text::str_eq;

verus! {

/// A JSON value. Numbers are held as the three kinds JSON text yields:
/// non-negative integers, negative integers, and other numbers kept by their text.
#[derive(Debug, PartialEq, Eq)]
pub enum Json {
    Null,
    Bool(bool),
    PosInt(u64),
    NegInt(i64),
    Float(String),
    Str(String),
    Array(Vec<Json>),
    Object(Vec<(String, Json)>),
}

/// The mathematical value of a [`Json`].
pub enum JsonView {
    Null,
    Bool(bool),
    PosInt(u64),
    NegInt(i64),
    Float(Seq<char>),
    Str(Seq<char>),
    Array(Seq<JsonView>),
    Object(Seq<(Seq<char>, JsonView)>),
}

impl Json {
    pub open spec fn model(self) -> JsonView
        decreases self,
    {
        match self {
            Json::Null => JsonView::Null,
            Json::Bool(b) => JsonView::Bool(b),
            Json::PosInt(n) => JsonView::PosInt(n),
            Json::NegInt(n) => JsonView::NegInt(n),
            Json::Float(t) => JsonView::Float(t@),
            Json::Str(t) => JsonView::Str(t@),
            Json::Array(v) => JsonView::Array(models(v@)),
            Json::Object(v) => JsonView::Object(entry_models(v@)),
        }
    }
}

/// The models of a sequence of values.
pub open spec fn models(s: Seq<Json>) -> Seq<JsonView>
    decreases s,
{
    if s.len() == 0 {
        Seq::<JsonView>::empty()
    } else {
        models(s.drop_last()).push(s.last().model())
    }
}

/// The models of a sequence of object members.
pub open spec fn entry_models(s: Seq<(String, Json)>) -> Seq<(Seq<char>, JsonView)>
    decreases s,
{
    if s.len() == 0 {
        Seq::<(Seq<char>, JsonView)>::empty()
    } else {
        entry_models(s.drop_last()).push((s.last().0@, s.last().1.model()))
    }
}

impl View for Json {
    type V = JsonView;

    open spec fn view(&self) -> JsonView {
        self.model()
    }
}


/// The value of the first member named `key`, if any.
pub open spec fn lookup(m: Seq<(Seq<char>, JsonView)>, key: Seq<char>) -> Option<JsonView>
    decreases m.len(),
{
    if m.len() == 0 {
        None
    } else if m[0].0 == key {
        Some(m[0].1)
    } else {
        lookup(m.drop_first(), key)
    }
}

/// `m` with the first member named `key` set to `value`, or with a new member
/// at the end when there is none (as inserting into a JSON map).
pub open spec fn insert_member(m: Seq<(Seq<char>, JsonView)>, key: Seq<char>, value: JsonView) -> Seq<
    (Seq<char>, JsonView),
>
    decreases m.len(),
{
    if m.len() == 0 {
        seq![(key, value)]
    } else if m[0].0 == key {
        m.update(0, (key, value))
    } else {
        seq![m[0]] + insert_member(m.drop_first(), key, value)
    }
}

/// Setting a member and reading it back gives what was set, and every other
/// member reads as before.
pub proof fn law_insert_member_lookup(m: Seq<(Seq<char>, JsonView)>, key: Seq<char>, value: JsonView, other: Seq<char>)
    ensures
        lookup(insert_member(m, key, value), key) == Some(value),
        other != key ==> lookup(insert_member(m, key, value), other) == lookup(m, other),
    decreases m.len(),
{
    let r = insert_member(m, key, value);
    if m.len() == 0 {
        assert(r =~= seq![(key, value)]);
        assert(r.drop_first() =~= Seq::<(Seq<char>, JsonView)>::empty());
        assert(lookup(r.drop_first(), other) is None);
    } else if m[0].0 != key {
        law_insert_member_lookup(m.drop_first(), key, value, other);
        assert(r[0] == m[0]);
        assert(r.drop_first() =~= insert_member(m.drop_first(), key, value));
    } else {
        assert(r[0] == (key, value));
        assert(r.drop_first() =~= m.drop_first());
    }
}

impl JsonView {
    /// The member `key` of an object; nothing for any other value.
    pub open spec fn member(self, key: Seq<char>) -> Option<JsonView> {
        match self {
            JsonView::Object(m) => lookup(m, key),
            _ => None,
        }
    }

    /// The text of a string value.
    pub open spec fn text(self) -> Option<Seq<char>> {
        match self {
            JsonView::Str(t) => Some(t),
            _ => None,
        }
    }

    /// The number of a non-negative integer value, as `Value::as_u64`.
    pub open spec fn unsigned(self) -> Option<u64> {
        match self {
            JsonView::PosInt(n) => Some(n),
            _ => None,
        }
    }

    /// The text of member `key` when it is a string.
    pub open spec fn text_member(self, key: Seq<char>) -> Option<Seq<char>> {
        match self.member(key) {
            Some(x) => x.text(),
            None => None,
        }
    }

    /// A string value with the given text.
    pub open spec fn string(t: Seq<char>) -> JsonView {
        JsonView::Str(t)
    }
}

pub proof fn lemma_models_index(s: Seq<Json>)
    ensures
        models(s).len() == s.len(),
        forall|i: int| 0 <= i < s.len() ==> #[trigger] models(s)[i] == s[i].model(),
    decreases s.len(),
{
    if s.len() > 0 {
        lemma_models_index(s.drop_last());
    }
}

pub proof fn lemma_entry_models_index(s: Seq<(String, Json)>)
    ensures
        entry_models(s).len() == s.len(),
        forall|i: int|
            0 <= i < s.len() ==> #[trigger] entry_models(s)[i] == (s[i].0@, s[i].1.model()),
    decreases s.len(),
{
    if s.len() > 0 {
        lemma_entry_models_index(s.drop_last());
    }
}

pub proof fn lemma_models_push(s: Seq<Json>, x: Json)
    ensures
        models(s.push(x)) == models(s).push(x.model()),
{
    assert(s.push(x).drop_last() =~= s);
}

pub proof fn lemma_entry_models_push(s: Seq<(String, Json)>, x: (String, Json))
    ensures
        entry_models(s.push(x)) == entry_models(s).push((x.0@, x.1.model())),
{
    assert(s.push(x).drop_last() =~= s);
}

/// `lookup` finds the first member whose name matches.
pub proof fn lemma_lookup_first(m: Seq<(Seq<char>, JsonView)>, key: Seq<char>, i: int)
    requires
        0 <= i <= m.len(),
        forall|k: int| 0 <= k < i ==> (#[trigger] m[k]).0 != key,
    ensures
        i < m.len() && m[i].0 == key ==> lookup(m, key) == Some(m[i].1),
        i == m.len() ==> lookup(m, key) is None,
    decreases i,
{
    if i > 0 {
        let t = m.drop_first();
        assert forall|k: int| 0 <= k < i - 1 implies (#[trigger] t[k]).0 != key by {
            assert(t[k] == m[k + 1]);
            assert(m[k + 1].0 != key);
        }
        lemma_lookup_first(t, key, i - 1);
        if i < m.len() {
            assert(t[i - 1] == m[i]);
        }
        assert(m[0].0 != key);
    }
}

/// Setting a member whose name is not among the first `i` members, where member `i`
/// has that name (or `i` is past the end).
pub proof fn lemma_insert_member_at(
    m: Seq<(Seq<char>, JsonView)>,
    key: Seq<char>,
    value: JsonView,
    i: int,
)
    requires
        0 <= i <= m.len(),
        forall|k: int| 0 <= k < i ==> (#[trigger] m[k]).0 != key,
        i < m.len() ==> m[i].0 == key,
    ensures
        i < m.len() ==> insert_member(m, key, value) == m.update(i, (key, value)),
        i == m.len() ==> insert_member(m, key, value) == m.push((key, value)),
    decreases i,
{
    if i == 0 {
        if m.len() == 0 {
            assert(seq![(key, value)] =~= m.push((key, value)));
        }
    } else {
        let t = m.drop_first();
        assert forall|k: int| 0 <= k < i - 1 implies (#[trigger] t[k]).0 != key by {
            assert(t[k] == m[k + 1]);
            assert(m[k + 1].0 != key);
        }
        if i < m.len() {
            assert(t[i - 1] == m[i]);
        }
        lemma_insert_member_at(t, key, value, i - 1);
        assert(m[0].0 != key);
        if i < m.len() {
            assert(seq![m[0]] + t.update(i - 1, (key, value)) =~= m.update(i, (key, value)));
        } else {
            assert(seq![m[0]] + t.push((key, value)) =~= m.push((key, value)));
        }
    }
}

/// The position of the first member of `members` named `key`, or the number of members.
pub fn find_member(members: &Vec<(String, Json)>, key: &str) -> (i: usize)
    ensures
        i <= members.len(),
        forall|k: int| 0 <= k < i ==> (#[trigger] members@[k]).0@ != key@,
        i < members.len() ==> members@[i as int].0@ == key@,
{
    let mut i: usize = 0;
    while i < members.len()
        invariant
            i <= members.len(),
            forall|k: int| 0 <= k < i ==> (#[trigger] members@[k]).0@ != key@,
        decreases members.len() - i,
    {
        if str_eq(members[i].0.as_str(), key) {
            return i;
        }
        i = i + 1;
    }
    i
}

/// Sets member `key` of an object's members to `value`, as inserting into a JSON map.
pub fn set_member(members: &mut Vec<(String, Json)>, key: String, value: Json)
    ensures
        entry_models(final(members)@) == insert_member(entry_models(old(members)@), key@, value@),
{
    let i = find_member(members, key.as_str());
    proof {
        lemma_entry_models_index(members@);
        let m = entry_models(members@);
        assert forall|k: int| 0 <= k < i implies (#[trigger] m[k]).0 != key@ by {
            assert(m[k].0 == members@[k].0@);
        }
        lemma_insert_member_at(m, key@, value@, i as int);
    }
    let ghost kv = key@;
    let ghost vv = value@;
    if i < members.len() {
        let ghost old_m = members@;
        members.set(i, (key, value));
        proof {
            lemma_entry_models_index(members@);
            lemma_entry_models_index(old_m);
            assert(entry_models(members@) =~= entry_models(old_m).update(i as int, (kv, vv)));
        }
    } else {
        let ghost old_m = members@;
        members.push((key, value));
        proof {
            lemma_entry_models_push(old_m, (key, value));
        }
    }
}

impl Json {
    /// Member `key` of an object, as `Value::get` with a string index.
    pub fn get(&self, key: &str) -> (r: Option<&Json>)
        ensures
            match r {
                Some(x) => self@.member(key@) == Some(x@),
                None => self@.member(key@) is None,
            },
    {
        match self {
            Json::Object(members) => {
                let i = find_member(members, key);
                proof {
                    lemma_entry_models_index(members@);
                    let m = entry_models(members@);
                    assert forall|k: int| 0 <= k < i implies (#[trigger] m[k]).0 != key@ by {
                        assert(m[k].0 == members@[k].0@);
                    }
                    lemma_lookup_first(m, key@, i as int);
                }
                if i < members.len() {
                    Some(&members[i].1)
                } else {
                    None
                }
            },
            _ => None,
        }
    }

    /// The text of member `key` when it is a string.
    pub fn text_member(&self, key: &str) -> (r: Option<&String>)
        ensures
            match r {
                Some(t) => self@.text_member(key@) == Some(t@),
                None => self@.text_member(key@) is None,
            },
    {
        match self.get(key) {
            Some(x) => x.as_str(),
            None => None,
        }
    }

    /// Whether this is an object with a member named `key`.
    pub fn contains_key(&self, key: &str) -> (b: bool)
        ensures
            b == self@.member(key@) is Some,
    {
        self.get(key).is_some()
    }

    /// The text of a string value, as `Value::as_str`.
    pub fn as_str(&self) -> (r: Option<&String>)
        ensures
            match r {
                Some(t) => self@.text() == Some(t@),
                None => self@.text() is None,
            },
    {
        match self {
            Json::Str(t) => Some(t),
            _ => None,
        }
    }

    /// The number of a non-negative integer value, as `Value::as_u64`.
    pub fn as_u64(&self) -> (r: Option<u64>)
        ensures
            r == self@.unsigned(),
    {
        match self {
            Json::PosInt(n) => Some(*n),
            _ => None,
        }
    }

    /// Whether this is an object.
    pub fn is_object(&self) -> (b: bool)
        ensures
            b == self@ is Object,
    {
        match self {
            Json::Object(_) => true,
            _ => false,
        }
    }

    /// A copy of this value.
    pub fn copy(&self) -> (r: Json)
        ensures
            r@ == self@,
        decreases self,
    {
        match self {
            Json::Null => Json::Null,
            Json::Bool(b) => Json::Bool(*b),
            Json::PosInt(n) => Json::PosInt(*n),
            Json::NegInt(n) => Json::NegInt(*n),
            Json::Float(t) => Json::Float(t.clone()),
            Json::Str(t) => Json::Str(t.clone()),
            Json::Array(v) => Json::Array(copy_values(v)),
            Json::Object(m) => Json::Object(copy_members(m)),
        }
    }
}

/// Copies of a sequence of values.
pub fn copy_values(v: &Vec<Json>) -> (r: Vec<Json>)
    ensures
        models(r@) == models(v@),
    decreases v,
{
    let mut r: Vec<Json> = Vec::new();
    let mut i: usize = 0;
    while i < v.len()
        invariant
            i <= v.len(),
            models(r@) == models(v@.take(i as int)),
        decreases v.len() - i,
    {
        assert(decreases_to!(v => v@[i as int]));
        let x = v[i].copy();
        let ghost before = r@;
        r.push(x);
        proof {
            lemma_models_push(before, x);
            assert(v@.take(i + 1).drop_last() =~= v@.take(i as int));
        }
        i = i + 1;
    }
    assert(v@.take(v.len() as int) =~= v@);
    r
}

/// Copies of a sequence of object members.
pub fn copy_members(m: &Vec<(String, Json)>) -> (r: Vec<(String, Json)>)
    ensures
        entry_models(r@) == entry_models(m@),
    decreases m,
{
    let mut r: Vec<(String, Json)> = Vec::new();
    let mut i: usize = 0;
    while i < m.len()
        invariant
            i <= m.len(),
            entry_models(r@) == entry_models(m@.take(i as int)),
        decreases m.len() - i,
    {
        assert(decreases_to!(m => m@[i as int].1));
        let x = (m[i].0.clone(), m[i].1.copy());
        let ghost before = r@;
        r.push(x);
        proof {
            lemma_entry_models_push(before, x);
            assert(m@.take(i + 1).drop_last() =~= m@.take(i as int));
        }
        i = i + 1;
    }
    assert(m@.take(m.len() as int) =~= m@);
    r
}


/// A list of strings.
pub open spec fn str_list(ts: Seq<Seq<char>>) -> JsonView {
    JsonView::Array(ts.map_values(|t: Seq<char>| JsonView::Str(t)))
}

/// `m` with a string member `k` added when `v` is present.
pub open spec fn push_opt(m: Seq<(Seq<char>, JsonView)>, k: Seq<char>, v: Option<Seq<char>>) -> Seq<
    (Seq<char>, JsonView),
> {
    match v {
        Some(t) => m.push((k, JsonView::Str(t))),
        None => m,
    }
}

/// A list of strings.
pub fn string_list(v: Vec<String>) -> (r: Json)
    ensures
        r@ == str_list(crate::text::views(v@)),
{
    let mut out: Vec<Json> = Vec::new();
    let mut i: usize = 0;
    while i < v.len()
        invariant
            i <= v.len(),
            models(out@) == crate::text::views(v@).take(i as int).map_values(
                |t: Seq<char>| JsonView::Str(t),
            ),
        decreases v.len() - i,
    {
        let x = Json::Str(v[i].clone());
        let ghost before = out@;
        out.push(x);
        proof {
            lemma_models_push(before, x);
            assert(crate::text::views(v@).take(i + 1).map_values(|t: Seq<char>| JsonView::Str(t))
                =~= crate::text::views(v@).take(i as int).map_values(|t: Seq<char>| JsonView::Str(t)).push(
                JsonView::Str(v@[i as int]@),
            ));
        }
        i = i + 1;
    }
    proof {
        assert(crate::text::views(v@).take(v.len() as int) =~= crate::text::views(v@));
    }
    Json::Array(out)
}

/// Adds a member with value `value`.
pub fn push_member(m: &mut Vec<(String, Json)>, key: &str, value: Json)
    ensures
        entry_models(final(m)@) == entry_models(old(m)@).push((key@, value@)),
{
    let x = (key.to_owned(), value);
    let ghost before = m@;
    m.push(x);
    proof {
        lemma_entry_models_push(before, x);
    }
}

/// Adds a string member `key` when `value` is present.
pub fn push_opt_member(m: &mut Vec<(String, Json)>, key: &str, value: Option<String>)
    ensures
        entry_models(final(m)@) == push_opt(entry_models(old(m)@), key@, crate::error::opt_view(value)),
{
    match value {
        Some(t) => push_member(m, key, Json::Str(t)),
        None => {},
    }
}

} // verus!
