//! JSON values.
//!
//! [`Json`] holds a value whose parts the library reads. It is made from, and
//! turned into, the value type of `serde_json`; what such a value holds is
//! named by [`value_contents`].
use vstd::prelude::*;

use crate::model::{opt_view, views, Copied};
use crate::text::same;

verus! {

/// A JSON value. The members of an object stand in the order in which they
/// were written.
pub enum Json {
    Null,
    Bool(bool),
    Number(serde_json::Number),
    Str(String),
    Array(Vec<Json>),
    Object(Vec<(String, Json)>),
}

/// The tree that a JSON value stands for.
pub enum JsonTree {
    Null,
    Bool(bool),
    Number(serde_json::Number),
    Str(Seq<char>),
    Array(Seq<JsonTree>),
    Object(Seq<(Seq<char>, JsonTree)>),
}

/// The number type of `serde_json`, carried through unchanged.
#[verifier::external_type_specification]
#[verifier::external_body]
pub struct ExNumber(serde_json::Number);

/// The value type of `serde_json`.
#[verifier::external_type_specification]
#[verifier::external_body]
pub struct ExValue(serde_json::Value);

/// The error type of `serde_json`.
#[verifier::external_type_specification]
#[verifier::external_body]
pub struct ExJsonError(serde_json::Error);

/// The tree that a value of `serde_json` holds.
pub uninterp spec fn value_contents(v: serde_json::Value) -> JsonTree;

/// The text that `serde_json::Value::to_string` gives for a tree.
pub uninterp spec fn json_text(t: JsonTree) -> Seq<char>;

/// The text that `serde_json::to_string_pretty` gives for a tree.
pub uninterp spec fn json_pretty(t: JsonTree) -> Seq<char>;

/// The number that `serde_json::Number::from` makes of an integer.
pub uninterp spec fn number_of(n: u64) -> serde_json::Number;

/// What `serde_json::Number::as_u64` gives for a number.
pub uninterp spec fn number_value(n: serde_json::Number) -> Option<u64>;

/// The tree that `serde_json::from_str` reads from a text, if it is valid JSON.
pub uninterp spec fn json_parsed(s: Seq<char>) -> Option<JsonTree>;

impl View for Json {
    type V = JsonTree;

    open spec fn view(&self) -> JsonTree {
        self.tree()
    }
}

impl Json {
    /// The tree that the value stands for.
    pub open spec fn tree(&self) -> JsonTree
        decreases self,
    {
        match self {
            Json::Null => JsonTree::Null,
            Json::Bool(b) => JsonTree::Bool(*b),
            Json::Number(n) => JsonTree::Number(*n),
            Json::Str(s) => JsonTree::Str(s@),
            Json::Array(v) => JsonTree::Array(
                Seq::new(
                    v@.len(),
                    |i: int|
                        if 0 <= i < v@.len() {
                            v@[i].tree()
                        } else {
                            JsonTree::Null
                        },
                ),
            ),
            Json::Object(v) => JsonTree::Object(
                Seq::new(
                    v@.len(),
                    |i: int|
                        if 0 <= i < v@.len() {
                            (v@[i].0@, v@[i].1.tree())
                        } else {
                            (Seq::empty(), JsonTree::Null)
                        },
                ),
            ),
        }
    }
}

/// `<serde_json::Number as Clone>::clone` gives an equal number.
pub assume_specification[ <serde_json::Number as Clone>::clone ](
    n: &serde_json::Number,
) -> (r: serde_json::Number)
    ensures
        r == *n,
;

impl Json {
    /// A copy of the value.
    pub fn copy(&self) -> (r: Json)
        ensures
            r@ == self@,
        decreases self,
    {
        match self {
            Json::Null => Json::Null,
            Json::Bool(b) => Json::Bool(*b),
            Json::Number(n) => Json::Number(n.clone()),
            Json::Str(s) => Json::Str(s.clone()),
            Json::Array(v) => {
                let mut w: Vec<Json> = Vec::new();
                for i in 0..v.len()
                    invariant
                        decreases_to!(self => v),
                        w@.len() == i,
                        forall|j: int| 0 <= j < i ==> (#[trigger] w@[j])@ == v@[j]@,
                {
                    w.push(v[i].copy());
                }
                let r = Json::Array(w);
                assert(r@->Array_0 =~= self@->Array_0);
                r
            },
            Json::Object(v) => {
                let mut w: Vec<(String, Json)> = Vec::new();
                for i in 0..v.len()
                    invariant
                        decreases_to!(self => v),
                        w@.len() == i,
                        forall|j: int|
                            0 <= j < i ==> (#[trigger] w@[j]).0@ == v@[j].0@ && w@[j].1@
                                == v@[j].1@,
                {
                    w.push((v[i].0.clone(), v[i].1.copy()));
                }
                let r = Json::Object(w);
                assert(r@->Object_0 =~= self@->Object_0);
                r
            },
        }
    }
}

impl Copied for Json {
    fn copied(&self) -> (r: Self) {
        self.copy()
    }
}

// ---------------------------------------------------------------------------
// Members of an object
// ---------------------------------------------------------------------------

/// The position of the first member called `key`.
pub open spec fn member_at(members: Seq<(Seq<char>, JsonTree)>, key: Seq<char>) -> Option<int>
    decreases members.len(),
{
    if members.len() == 0 {
        None
    } else if members[0].0 == key {
        Some(0)
    } else {
        match member_at(members.skip(1), key) {
            Some(i) => Some(i + 1),
            None => None,
        }
    }
}

/// The member of `t` called `key`: none where `t` is no object or lacks it.
pub open spec fn member(t: JsonTree, key: Seq<char>) -> Option<JsonTree> {
    match t {
        JsonTree::Object(m) => match member_at(m, key) {
            Some(i) => Some(m[i].1),
            None => None,
        },
        _ => None,
    }
}

/// The text of a string value.
pub open spec fn as_text(t: Option<JsonTree>) -> Option<Seq<char>> {
    match t {
        Some(JsonTree::Str(s)) => Some(s),
        _ => None,
    }
}

/// The text of the string member of `t` called `key`.
pub open spec fn text_member(t: JsonTree, key: Seq<char>) -> Option<Seq<char>> {
    as_text(member(t, key))
}

/// The flag member of `t` called `key`.
pub open spec fn bool_member(t: JsonTree, key: Seq<char>) -> Option<bool> {
    match member(t, key) {
        Some(JsonTree::Bool(b)) => Some(b),
        _ => None,
    }
}

proof fn lemma_member_at(m: Seq<(Seq<char>, JsonTree)>, key: Seq<char>)
    ensures
        match member_at(m, key) {
            Some(i) => 0 <= i < m.len() && m[i].0 == key && forall|j: int|
                0 <= j < i ==> (#[trigger] m[j]).0 != key,
            None => forall|j: int| 0 <= j < m.len() ==> (#[trigger] m[j]).0 != key,
        },
    decreases m.len(),
{
    if m.len() > 0 && m[0].0 != key {
        lemma_member_at(m.skip(1), key);
        assert forall|j: int| 0 < j < m.len() implies #[trigger] m[j] == m.skip(1)[j - 1] by {}
        match member_at(m.skip(1), key) {
            Some(i) => {
                assert forall|j: int| 0 <= j < i + 1 implies (#[trigger] m[j]).0 != key by {
                    if j > 0 {
                        assert(m.skip(1)[j - 1].0 != key);
                    }
                }
            },
            None => {
                assert forall|j: int| 0 <= j < m.len() implies (#[trigger] m[j]).0 != key by {
                    if j > 0 {
                        assert(m.skip(1)[j - 1].0 != key);
                    }
                }
            },
        }
    }
}

/// Where no two members have the same key, each is found under its own.
pub proof fn lemma_member(m: Seq<(Seq<char>, JsonTree)>, i: int)
    requires
        0 <= i < m.len(),
        distinct_keys(m),
    ensures
        member(JsonTree::Object(m), m[i].0) == Some(m[i].1),
{
    lemma_member_at_is(m, m[i].0, i);
}

/// A member is found exactly where it first stands.
proof fn lemma_member_at_is(m: Seq<(Seq<char>, JsonTree)>, key: Seq<char>, i: int)
    requires
        0 <= i < m.len(),
        m[i].0 == key,
        forall|j: int| 0 <= j < i ==> (#[trigger] m[j]).0 != key,
    ensures
        member_at(m, key) == Some(i),
{
    lemma_member_at(m, key);
}

impl Json {
    /// The member called `key`: none where the value is no object or lacks it.
    pub fn get(&self, key: &str) -> (r: Option<&Json>)
        ensures
            match r {
                Some(x) => member(self@, key@) == Some(x@),
                None => member(self@, key@) is None,
            },
    {
        match self {
            Json::Object(v) => {
                let ghost m = self@->Object_0;
                for i in 0..v.len()
                    invariant
                        m == self@->Object_0,
                        self@ is Object,
                        m.len() == v@.len(),
                        forall|j: int|
                            0 <= j < v@.len() ==> #[trigger] m[j] == (v@[j].0@, v@[j].1@),
                        forall|j: int| 0 <= j < i ==> (#[trigger] m[j]).0 != key@,
                {
                    if same(v[i].0.as_str(), key) {
                        proof {
                            assert(m[i as int].0 == key@);
                            lemma_member_at_is(m, key@, i as int);
                        }
                        return Some(&v[i].1);
                    }
                    assert(m[i as int].0 != key@);
                }
                proof {
                    lemma_member_at(m, key@);
                }
                None
            },
            _ => None,
        }
    }

    /// The text of the string member called `key`.
    pub fn get_text(&self, key: &str) -> (r: Option<&String>)
        ensures
            match r {
                Some(s) => text_member(self@, key@) == Some(s@),
                None => text_member(self@, key@) is None,
            },
    {
        match self.get(key) {
            Some(Json::Str(s)) => Some(s),
            _ => None,
        }
    }

    /// The flag member called `key`.
    pub fn get_bool(&self, key: &str) -> (r: Option<bool>)
        ensures
            r == bool_member(self@, key@),
    {
        match self.get(key) {
            Some(Json::Bool(b)) => Some(*b),
            _ => None,
        }
    }
}

// ---------------------------------------------------------------------------
// To and from serde_json
// ---------------------------------------------------------------------------

/// One level of a JSON value, with children of type `V`.
pub enum Shape<V> {
    Null,
    Bool(bool),
    Number(serde_json::Number),
    Str(String),
    Array(Vec<V>),
    Object(Vec<(String, V)>),
}

/// The items of an array, children seen through `f`.
pub open spec fn items_of<V>(v: Seq<V>, f: spec_fn(V) -> JsonTree) -> Seq<JsonTree> {
    Seq::new(v.len(), |i: int| f(v[i]))
}

/// The members of an object, children seen through `f`.
pub open spec fn members_of<V>(
    v: Seq<(String, V)>,
    f: spec_fn(V) -> JsonTree,
) -> Seq<(Seq<char>, JsonTree)> {
    Seq::new(v.len(), |i: int| (v[i].0@, f(v[i].1)))
}

/// `members` with the value of `key` set: in place where the key is there,
/// else at the end.
pub open spec fn put(
    members: Seq<(Seq<char>, JsonTree)>,
    key: Seq<char>,
    value: JsonTree,
) -> Seq<(Seq<char>, JsonTree)> {
    match member_at(members, key) {
        Some(i) => members.update(i, (key, value)),
        None => members.push((key, value)),
    }
}

/// The members of the object into which `pairs` are put one after the other.
pub open spec fn object_of(pairs: Seq<(Seq<char>, JsonTree)>) -> Seq<(Seq<char>, JsonTree)>
    decreases pairs.len(),
{
    if pairs.len() == 0 {
        Seq::empty()
    } else {
        put(object_of(pairs.drop_last()), pairs.last().0, pairs.last().1)
    }
}

/// Whether no two members have the same key.
pub open spec fn distinct_keys(m: Seq<(Seq<char>, JsonTree)>) -> bool {
    forall|i: int, j: int| 0 <= i < j < m.len() ==> (#[trigger] m[i]).0 != (#[trigger] m[j]).0
}

/// Members with distinct keys are what putting them one by one gives.
pub proof fn lemma_object_of_distinct(pairs: Seq<(Seq<char>, JsonTree)>)
    requires
        distinct_keys(pairs),
    ensures
        object_of(pairs) == pairs,
    decreases pairs.len(),
{
    if pairs.len() > 0 {
        lemma_object_of_distinct(pairs.drop_last());
        lemma_member_at(pairs.drop_last(), pairs.last().0);
        assert(pairs.drop_last().push(pairs.last()) == pairs);
    } else {
        assert(pairs =~= Seq::empty());
    }
}

/// What `serde_json` holds for a tree: of members with the same key, the last
/// value at the first place.
pub open spec fn canonical(t: JsonTree) -> JsonTree
    decreases t,
{
    match t {
        JsonTree::Array(v) => JsonTree::Array(
            Seq::new(
                v.len(),
                |i: int|
                    if 0 <= i < v.len() {
                        canonical(v[i])
                    } else {
                        JsonTree::Null
                    },
            ),
        ),
        JsonTree::Object(m) => JsonTree::Object(object_of(canonical_members(m))),
        _ => t,
    }
}

/// The members with their values as `serde_json` holds them.
pub open spec fn canonical_members(m: Seq<(Seq<char>, JsonTree)>) -> Seq<(Seq<char>, JsonTree)>
    decreases m,
{
    Seq::new(
        m.len(),
        |i: int|
            if 0 <= i < m.len() {
                (m[i].0, canonical(m[i].1))
            } else {
                (Seq::empty(), JsonTree::Null)
            },
    )
}

/// Whether no object in the tree has two members with the same key.
pub open spec fn well_keyed(t: JsonTree) -> bool
    decreases t,
{
    match t {
        JsonTree::Array(v) => forall|i: int| 0 <= i < v.len() ==> well_keyed(#[trigger] v[i]),
        JsonTree::Object(m) => distinct_keys(m) && forall|i: int|
            0 <= i < m.len() ==> well_keyed((#[trigger] m[i]).1),
        _ => true,
    }
}

/// A tree without repeated keys is held by `serde_json` as it is.
pub proof fn lemma_canonical_well_keyed(t: JsonTree)
    requires
        well_keyed(t),
    ensures
        canonical(t) == t,
    decreases t,
{
    match t {
        JsonTree::Array(v) => {
            assert(well_keyed(JsonTree::Array(v)));
            assert forall|i: int| 0 <= i < v.len() implies canonical(#[trigger] v[i]) == v[i] by {
                lemma_canonical_well_keyed(v[i]);
            }
            assert(canonical(JsonTree::Array(v))->Array_0 =~= v);
        },
        JsonTree::Object(m) => {
            assert forall|i: int| 0 <= i < m.len() implies canonical_members(m)[i]
                == #[trigger] m[i] by {
                lemma_canonical_well_keyed(m[i].1);
            }
            assert(canonical_members(m) =~= m);
            lemma_object_of_distinct(m);
        },
        _ => {},
    }
}

/// Reads one level of a value: each variant of `serde_json::Value` is handed
/// over with its fields, the members of an object in the order in which the
/// map iterates over them, which is the order of `value_contents`. A map holds
/// no key twice.
#[verifier::external_body]
fn open_value<'a>(v: &'a serde_json::Value) -> (r: Shape<&'a serde_json::Value>)
    ensures
        match r {
            Shape::Null => value_contents(*v) == JsonTree::Null,
            Shape::Bool(b) => value_contents(*v) == JsonTree::Bool(b),
            Shape::Number(n) => value_contents(*v) == JsonTree::Number(n),
            Shape::Str(s) => value_contents(*v) == JsonTree::Str(s@),
            Shape::Array(a) => value_contents(*v) == JsonTree::Array(
                items_of(a@, |x: &'a serde_json::Value| value_contents(*x)),
            ),
            Shape::Object(m) => value_contents(*v) == JsonTree::Object(
                members_of(m@, |x: &'a serde_json::Value| value_contents(*x)),
            ) && distinct_keys(members_of(m@, |x: &'a serde_json::Value| value_contents(*x))),
        },
{
    match v {
        serde_json::Value::Null => Shape::Null,
        serde_json::Value::Bool(b) => Shape::Bool(*b),
        serde_json::Value::Number(n) => Shape::Number(n.clone()),
        serde_json::Value::String(s) => Shape::Str(s.clone()),
        serde_json::Value::Array(a) => Shape::Array(a.iter().collect()),
        serde_json::Value::Object(m) => Shape::Object(m.iter().map(|(k, x)| (k.clone(), x)).collect()),
    }
}

/// Builds one level of a value: each shape becomes the variant of
/// `serde_json::Value` of the same name. The members of an object are put into
/// a `serde_json::Map`, which keeps them in the order of insertion and, for a
/// key that is already there, replaces the value in its place.
#[verifier::external_body]
fn close_value(s: Shape<serde_json::Value>) -> (r: serde_json::Value)
    ensures
        value_contents(r) == (match s {
            Shape::Null => JsonTree::Null,
            Shape::Bool(b) => JsonTree::Bool(b),
            Shape::Number(n) => JsonTree::Number(n),
            Shape::Str(t) => JsonTree::Str(t@),
            Shape::Array(a) => JsonTree::Array(
                items_of(a@, |x: serde_json::Value| value_contents(x)),
            ),
            Shape::Object(m) => JsonTree::Object(
                object_of(members_of(m@, |x: serde_json::Value| value_contents(x))),
            ),
        }),
{
    match s {
        Shape::Null => serde_json::Value::Null,
        Shape::Bool(b) => serde_json::Value::Bool(b),
        Shape::Number(n) => serde_json::Value::Number(n),
        Shape::Str(t) => serde_json::Value::String(t),
        Shape::Array(a) => serde_json::Value::Array(a),
        Shape::Object(m) => serde_json::Value::Object(m.into_iter().collect()),
    }
}

/// Whether no more than `depth` arrays and objects of a tree stand in each
/// other.
pub open spec fn readable(t: JsonTree, depth: int) -> bool
    decreases t,
{
    match t {
        JsonTree::Array(v) => depth > 0 && forall|i: int|
            0 <= i < v.len() ==> readable(#[trigger] v[i], depth - 1),
        JsonTree::Object(m) => depth > 0 && forall|i: int|
            0 <= i < m.len() ==> readable((#[trigger] m[i]).1, depth - 1),
        _ => true,
    }
}

/// The number of arrays and objects that may stand in each other in a text
/// that `serde_json` reads.
pub const READ_DEPTH: u8 = 127;

/// `serde_json::Value::to_string`: the compact text of the tree that the value
/// holds. It stands in one line: line feeds in texts are escaped, and there are
/// no others.
#[verifier::external_body]
fn value_text(v: &serde_json::Value) -> (r: String)
    ensures
        r@ == json_text(value_contents(*v)),
        !r@.contains('\n'),
{
    v.to_string()
}

/// `serde_json::from_str`: the value that the text denotes, or an error where
/// it is not valid JSON.
#[verifier::external_body]
fn parse_value(s: &str) -> (r: Result<serde_json::Value, serde_json::Error>)
    ensures
        match r {
            Ok(v) => json_parsed(s@) == Some(value_contents(v)),
            Err(_) => json_parsed(s@) is None,
        },
{
    serde_json::from_str(s)
}

/// `serde_json::to_string_pretty` on a value: its text with line breaks, or an
/// error. A value has no keys but texts, so that there is no error. The text
/// of a tree that is not too deep for the parser reads back as that tree: with
/// `float_roundtrip`, fractions are read with all their digits.
#[verifier::external_body]
fn pretty_text(v: &serde_json::Value) -> (r: Result<String, serde_json::Error>)
    ensures
        r is Ok,
        r->Ok_0@ == json_pretty(value_contents(*v)),
        readable(value_contents(*v), READ_DEPTH as int) ==> json_parsed(r->Ok_0@) == Some(
            value_contents(*v),
        ),
{
    serde_json::to_string_pretty(v)
}

/// `serde_json::Number::from` on an integer. `as_u64` gives the integer back.
#[verifier::external_body]
fn number_from(n: u64) -> (r: serde_json::Number)
    ensures
        r == number_of(n),
        number_value(r) == Some(n),
{
    serde_json::Number::from(n)
}

/// `serde_json::Number::as_u64`: the integer that the number is, if it is one
/// and not negative.
pub assume_specification[ serde_json::Number::as_u64 ](n: &serde_json::Number) -> (r: Option<u64>)
    ensures
        r == number_value(*n),
;

/// The members of an object that is built up.
pub open spec fn pairs(m: Seq<(String, Json)>) -> Seq<(Seq<char>, JsonTree)> {
    Seq::new(m.len(), |i: int| (m[i].0@, m[i].1@))
}

pub broadcast proof fn lemma_pairs_push(m: Seq<(String, Json)>, x: (String, Json))
    ensures
        #[trigger] pairs(m.push(x)) == pairs(m).push((x.0@, x.1@)),
{
    assert(pairs(m.push(x)) =~= pairs(m).push((x.0@, x.1@)));
}

pub broadcast proof fn lemma_pairs_empty(m: Seq<(String, Json)>)
    requires
        m.len() == 0,
    ensures
        #[trigger] pairs(m) == Seq::<(Seq<char>, JsonTree)>::empty(),
{
    assert(pairs(m) =~= Seq::<(Seq<char>, JsonTree)>::empty());
}

/// What an object holds while it is built up.
pub broadcast group group_pairs {
    lemma_pairs_push,
    lemma_pairs_empty,
}

/// A member of an object.
pub fn entry(key: &str, value: Json) -> (r: (String, Json))
    ensures
        r.0@ == key@,
        r.1@ == value@,
{
    (key.to_owned(), value)
}

/// A text as JSON.
pub fn text_value(s: &str) -> (r: Json)
    ensures
        r@ == JsonTree::Str(s@),
{
    Json::Str(s.to_owned())
}

/// A text or null, as JSON.
pub open spec fn text_or_null(o: Option<Seq<char>>) -> JsonTree {
    match o {
        Some(s) => JsonTree::Str(s),
        None => JsonTree::Null,
    }
}

/// A text or null, as JSON.
pub fn optional_text(o: &Option<String>) -> (r: Json)
    ensures
        r@ == text_or_null(opt_view(*o)),
{
    match o {
        Some(s) => Json::Str(s.clone()),
        None => Json::Null,
    }
}

/// An integer as JSON.
pub open spec fn number_tree(n: u64) -> JsonTree {
    JsonTree::Number(number_of(n))
}

/// The integer that a member is, if it is one and not negative.
pub open spec fn u64_member(t: JsonTree, key: Seq<char>) -> Option<u64> {
    match member(t, key) {
        Some(JsonTree::Number(n)) => number_value(n),
        _ => None,
    }
}

/// The items of the array member of `t` called `key`.
pub open spec fn array_member(t: JsonTree, key: Seq<char>) -> Option<Seq<JsonTree>> {
    match member(t, key) {
        Some(JsonTree::Array(v)) => Some(v),
        _ => None,
    }
}

/// Some texts as a JSON array.
pub open spec fn text_array(v: Seq<Seq<char>>) -> JsonTree {
    JsonTree::Array(Seq::new(v.len(), |i: int| JsonTree::Str(v[i])))
}

impl Json {
    /// Whether the value is not too deep for a text that is read.
    pub fn is_readable(&self, depth: u8) -> (r: bool)
        ensures
            r == readable(self@, depth as int),
        decreases self,
    {
        match self {
            Json::Array(v) => {
                if depth == 0 {
                    return false;
                }
                for i in 0..v.len()
                    invariant
                        depth > 0,
                        decreases_to!(self => v),
                        self@ is Array,
                        self@->Array_0 =~= views(v@),
                        forall|k: int| 0 <= k < i ==> readable(#[trigger] v@[k]@, depth - 1),
                {
                    if !v[i].is_readable(depth - 1) {
                        assert(self@->Array_0[i as int] == v@[i as int]@);
                        return false;
                    }
                }
                assert forall|k: int| 0 <= k < v@.len() implies readable(
                    #[trigger] self@->Array_0[k],
                    depth - 1,
                ) by {
                    assert(self@->Array_0[k] == v@[k]@);
                }
                true
            },
            Json::Object(m) => {
                if depth == 0 {
                    return false;
                }
                for i in 0..m.len()
                    invariant
                        depth > 0,
                        decreases_to!(self => m),
                        self@ is Object,
                        self@->Object_0 =~= pairs(m@),
                        forall|k: int| 0 <= k < i ==> readable((#[trigger] m@[k]).1@, depth - 1),
                {
                    if !m[i].1.is_readable(depth - 1) {
                        assert(self@->Object_0[i as int].1 == m@[i as int].1@);
                        return false;
                    }
                }
                assert forall|k: int| 0 <= k < m@.len() implies readable(
                    (#[trigger] self@->Object_0[k]).1,
                    depth - 1,
                ) by {
                    assert(self@->Object_0[k].1 == m@[k].1@);
                }
                true
            },
            _ => true,
        }
    }

    /// Whether no object in the value has two members with the same key.
    pub fn is_well_keyed(&self) -> (r: bool)
        ensures
            r == well_keyed(self@),
        decreases self,
    {
        match self {
            Json::Array(v) => {
                for i in 0..v.len()
                    invariant
                        decreases_to!(self => v),
                        self@ is Array,
                        self@->Array_0 =~= views(v@),
                        forall|k: int| 0 <= k < i ==> well_keyed(#[trigger] v@[k]@),
                {
                    if !v[i].is_well_keyed() {
                        assert(self@->Array_0[i as int] == v@[i as int]@);
                        return false;
                    }
                }
                assert forall|k: int| 0 <= k < v@.len() implies well_keyed(
                    #[trigger] self@->Array_0[k],
                ) by {
                    assert(self@->Array_0[k] == v@[k]@);
                }
                true
            },
            Json::Object(m) => {
                for i in 0..m.len()
                    invariant
                        decreases_to!(self => m),
                        self@ is Object,
                        self@->Object_0 =~= pairs(m@),
                        forall|k: int| 0 <= k < i ==> well_keyed((#[trigger] m@[k]).1@),
                        forall|a: int, b: int|
                            0 <= a < b < i ==> (#[trigger] m@[a]).0@ != (#[trigger] m@[b]).0@,
                {
                    if !m[i].1.is_well_keyed() {
                        assert(self@->Object_0[i as int].1 == m@[i as int].1@);
                        return false;
                    }
                    for j in 0..i
                        invariant
                            i < m@.len(),
                            self@ is Object,
                        self@->Object_0 =~= pairs(m@),
                            forall|a: int| 0 <= a < j ==> (#[trigger] m@[a]).0@ != m@[i as int].0@,
                    {
                        if same(m[j].0.as_str(), m[i].0.as_str()) {
                            assert(self@->Object_0[j as int].0 == self@->Object_0[i as int].0);
                            return false;
                        }
                    }
                }
                assert forall|k: int| 0 <= k < m@.len() implies well_keyed(
                    (#[trigger] self@->Object_0[k]).1,
                ) by {
                    assert(self@->Object_0[k].1 == m@[k].1@);
                }
                assert(distinct_keys(self@->Object_0)) by {
                    assert forall|a: int, b: int| 0 <= a < b < m@.len() implies (
                    #[trigger] self@->Object_0[a]).0 != (#[trigger] self@->Object_0[b]).0 by {
                        assert(self@->Object_0[a].0 == m@[a].0@);
                        assert(self@->Object_0[b].0 == m@[b].0@);
                    }
                }
                true
            },
            _ => true,
        }
    }

    /// An integer.
    pub fn number(n: u64) -> (r: Json)
        ensures
            r@ == number_tree(n),
            number_value(number_of(n)) == Some(n),
    {
        Json::Number(number_from(n))
    }

    /// An array with the given items.
    pub fn array(items: Vec<Json>) -> (r: Json)
        ensures
            r@ == JsonTree::Array(views(items@)),
    {
        let r = Json::Array(items);
        assert(r@->Array_0 =~= views(items@));
        r
    }

    /// An object with the given members.
    pub fn object(members: Vec<(String, Json)>) -> (r: Json)
        ensures
            r@ == JsonTree::Object(pairs(members@)),
    {
        let r = Json::Object(members);
        assert(r@->Object_0 =~= pairs(members@));
        r
    }

    /// An array of texts.
    pub fn texts(v: &Vec<String>) -> (r: Json)
        ensures
            r@ == text_array(views(v@)),
    {
        let mut w: Vec<Json> = Vec::new();
        for i in 0..v.len()
            invariant
                w@.len() == i,
                forall|j: int| 0 <= j < i ==> (#[trigger] w@[j])@ == JsonTree::Str(v@[j]@),
        {
            w.push(Json::Str(v[i].clone()));
        }
        let r = Json::Array(w);
        assert(r@->Array_0 =~= text_array(views(v@))->Array_0);
        r
    }

    /// The integer that a member is, if it is one and not negative.
    pub fn get_u64(&self, key: &str) -> (r: Option<u64>)
        ensures
            r == u64_member(self@, key@),
    {
        match self.get(key) {
            Some(Json::Number(n)) => n.as_u64(),
            _ => None,
        }
    }

    /// The items of the array member called `key`.
    pub fn get_array(&self, key: &str) -> (r: Option<&Vec<Json>>)
        ensures
            match r {
                Some(v) => array_member(self@, key@) == Some(views(v@)),
                None => array_member(self@, key@) is None,
            },
    {
        match self.get(key) {
            Some(Json::Array(v)) => {
                assert(member(self@, key@).unwrap()->Array_0 =~= views(v@));
                Some(v)
            },
            _ => None,
        }
    }

    /// The JSON text of the value, with line breaks.
    pub fn pretty(&self) -> (r: String)
        ensures
            r@ == json_pretty(canonical(self@)),
            readable(canonical(self@), READ_DEPTH as int) ==> json_parsed(r@) == Some(
                canonical(self@),
            ),
    {
        let v = self.to_value();
        match pretty_text(&v) {
            Ok(s) => s,
            Err(_) => String::new(),
        }
    }
}

impl Json {
    /// The value that a `serde_json` value holds.
    pub fn from_value(v: &serde_json::Value) -> (r: Json)
        ensures
            r@ == value_contents(*v),
            well_keyed(r@),
        decreases value_contents(*v),
    {
        match open_value(v) {
            Shape::Null => Json::Null,
            Shape::Bool(b) => Json::Bool(b),
            Shape::Number(n) => Json::Number(n),
            Shape::Str(s) => Json::Str(s),
            Shape::Array(a) => {
                let ghost items = value_contents(*v)->Array_0;
                let mut w: Vec<Json> = Vec::new();
                for i in 0..a.len()
                    invariant
                        value_contents(*v) is Array,
                        items == value_contents(*v)->Array_0,
                        items.len() == a@.len(),
                        forall|j: int|
                            0 <= j < a@.len() ==> #[trigger] items[j] == value_contents(*a@[j]),
                        w@.len() == i,
                        forall|j: int| 0 <= j < i ==> (#[trigger] w@[j])@ == items[j],
                        forall|j: int| 0 <= j < i ==> well_keyed((#[trigger] w@[j])@),
                {
                    assert(decreases_to!(value_contents(*v) => items[i as int]));
                    w.push(Json::from_value(a[i]));
                }
                let r = Json::Array(w);
                assert(r@->Array_0 =~= items);
                r
            },
            Shape::Object(m) => {
                let ghost members = value_contents(*v)->Object_0;
                let mut w: Vec<(String, Json)> = Vec::new();
                for i in 0..m.len()
                    invariant
                        value_contents(*v) is Object,
                        members == value_contents(*v)->Object_0,
                        members.len() == m@.len(),
                        forall|j: int|
                            0 <= j < m@.len() ==> #[trigger] members[j] == (
                                m@[j].0@,
                                value_contents(*m@[j].1),
                            ),
                        w@.len() == i,
                        forall|j: int|
                            0 <= j < i ==> ((#[trigger] w@[j]).0@, w@[j].1@) == members[j],
                        forall|j: int| 0 <= j < i ==> well_keyed((#[trigger] w@[j]).1@),
                {
                    assert(decreases_to!(value_contents(*v) => members[i as int].1));
                    w.push((m[i].0.clone(), Json::from_value(m[i].1)));
                }
                let r = Json::Object(w);
                assert(r@->Object_0 =~= members);
                r
            },
        }
    }

    /// The `serde_json` value that holds this value.
    pub fn to_value(&self) -> (r: serde_json::Value)
        ensures
            value_contents(r) == canonical(self@),
        decreases self,
    {
        match self {
            Json::Null => close_value(Shape::Null),
            Json::Bool(b) => close_value(Shape::Bool(*b)),
            Json::Number(n) => close_value(Shape::Number(n.clone())),
            Json::Str(s) => close_value(Shape::Str(s.clone())),
            Json::Array(v) => {
                let mut w: Vec<serde_json::Value> = Vec::new();
                for i in 0..v.len()
                    invariant
                        decreases_to!(self => v),
                        w@.len() == i,
                        forall|j: int|
                            0 <= j < i ==> value_contents(#[trigger] w@[j]) == canonical(v@[j]@),
                {
                    w.push(v[i].to_value());
                }
                proof {
                    let f = |x: serde_json::Value| value_contents(x);
                    assert(items_of(w@, f) =~= canonical(self@)->Array_0);
                }
                close_value(Shape::Array(w))
            },
            Json::Object(v) => {
                let mut w: Vec<(String, serde_json::Value)> = Vec::new();
                for i in 0..v.len()
                    invariant
                        decreases_to!(self => v),
                        w@.len() == i,
                        forall|j: int|
                            0 <= j < i ==> (#[trigger] w@[j]).0@ == v@[j].0@ && value_contents(
                                w@[j].1,
                            ) == canonical(v@[j].1@),
                {
                    w.push((v[i].0.clone(), v[i].1.to_value()));
                }
                proof {
                    let f = |x: serde_json::Value| value_contents(x);
                    assert(members_of(w@, f) =~= canonical_members(self@->Object_0));
                }
                close_value(Shape::Object(w))
            },
        }
    }

    /// The compact JSON text of the value.
    pub fn text(&self) -> (r: String)
        ensures
            r@ == json_text(canonical(self@)),
            !r@.contains('\n'),
    {
        let v = self.to_value();
        value_text(&v)
    }

    /// The value that a text denotes; none where it is not valid JSON.
    pub fn parse(s: &str) -> (r: Option<Json>)
        ensures
            match r {
                Some(j) => json_parsed(s@) == Some(j@) && well_keyed(j@),
                None => json_parsed(s@) is None,
            },
    {
        match parse_value(s) {
            Ok(v) => Some(Json::from_value(&v)),
            Err(_) => None,
        }
    }
}

} // verus!
