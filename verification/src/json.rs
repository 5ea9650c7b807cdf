//! A JSON document model with the accessors that the protocol adapters use,
//! and the two outside calls that read and write JSON text.
use vstd::prelude::*;
use crate::text::str_eq;

verus! {

/// A JSON number as serde_json keeps it: a non-negative integer, a negative
/// integer, or a floating-point value, held here by its JSON text.
pub enum JsonNumber {
    PosInt(u64),
    NegInt(i64),
    Float(String),
}

/// A JSON value. Object members keep the order in which they were added, and
/// a key occurs at most once (`set` replaces an existing member).
pub enum Json {
    Null,
    Bool(bool),
    Number(JsonNumber),
    String(String),
    Array(Vec<Json>),
    Object(Vec<(String, Json)>),
}

/// The mathematical form of a JSON number.
pub enum NumV {
    PosInt(u64),
    NegInt(i64),
    Float(Seq<char>),
}

/// The mathematical form of a JSON value.
pub enum JsonV {
    Null,
    Bool(bool),
    Number(NumV),
    Str(Seq<char>),
    Array(Seq<JsonV>),
    Object(Seq<(Seq<char>, JsonV)>),
}

pub open spec fn num_view(n: JsonNumber) -> NumV {
    match n {
        JsonNumber::PosInt(u) => NumV::PosInt(u),
        JsonNumber::NegInt(i) => NumV::NegInt(i),
        JsonNumber::Float(t) => NumV::Float(t@),
    }
}

pub open spec fn items_view(items: Seq<Json>) -> Seq<JsonV>
    decreases items, 0nat,
{
    if items.len() == 0 {
        Seq::empty()
    } else {
        items_view(items.drop_last()).push(json_view(items.last()))
    }
}

pub open spec fn entries_view(entries: Seq<(String, Json)>) -> Seq<(Seq<char>, JsonV)>
    decreases entries, 0nat,
{
    if entries.len() == 0 {
        Seq::empty()
    } else {
        entries_view(entries.drop_last()).push((entries.last().0@, json_view(entries.last().1)))
    }
}

pub open spec fn json_view(j: Json) -> JsonV
    decreases j, 1nat,
{
    match j {
        Json::Null => JsonV::Null,
        Json::Bool(b) => JsonV::Bool(b),
        Json::Number(n) => JsonV::Number(num_view(n)),
        Json::String(s) => JsonV::Str(s@),
        Json::Array(items) => JsonV::Array(items_view(items@)),
        Json::Object(entries) => JsonV::Object(entries_view(entries@)),
    }
}

impl View for Json {
    type V = JsonV;

    open spec fn view(&self) -> JsonV {
        json_view(*self)
    }
}

pub broadcast proof fn lemma_items_view(items: Seq<Json>)
    ensures
        #[trigger] items_view(items).len() == items.len(),
        forall|i: int| 0 <= i < items.len() ==> #[trigger] items_view(items)[i] == json_view(items[i]),
    decreases items.len(),
{
    if items.len() > 0 {
        lemma_items_view(items.drop_last());
    }
}

pub broadcast proof fn lemma_entries_view(entries: Seq<(String, Json)>)
    ensures
        #[trigger] entries_view(entries).len() == entries.len(),
        forall|i: int|
            0 <= i < entries.len() ==> #[trigger] entries_view(entries)[i] == (
                entries[i].0@,
                json_view(entries[i].1),
            ),
    decreases entries.len(),
{
    if entries.len() > 0 {
        lemma_entries_view(entries.drop_last());
    }
}

/// Views of a pushed sequence.
pub proof fn lemma_items_view_push(items: Seq<Json>, x: Json)
    ensures
        items_view(items.push(x)) == items_view(items).push(json_view(x)),
{
    assert(items.push(x).drop_last() =~= items);
}

/// Views of a concatenation.
pub proof fn lemma_items_view_concat(a: Seq<Json>, b: Seq<Json>)
    ensures
        items_view(a + b) == items_view(a) + items_view(b),
{
    lemma_items_view(a);
    lemma_items_view(b);
    lemma_items_view(a + b);
    assert(items_view(a + b) =~= items_view(a) + items_view(b));
}

pub broadcast group group_json_view {
    lemma_items_view,
    lemma_entries_view,
}

// ---------------------------------------------------------------------------
// Reading values
// ---------------------------------------------------------------------------
/// The value of the first member named `key` in `entries`.
pub open spec fn member(entries: Seq<(Seq<char>, JsonV)>, key: Seq<char>) -> Option<JsonV>
    decreases entries.len(),
{
    if entries.len() == 0 {
        None
    } else if entries[0].0 == key {
        Some(entries[0].1)
    } else {
        member(entries.drop_first(), key)
    }
}

impl JsonV {
    /// `Value::get` with a key: the member of an object, `None` for other values.
    pub open spec fn get(self, key: Seq<char>) -> Option<JsonV> {
        match self {
            JsonV::Object(entries) => member(entries, key),
            _ => None,
        }
    }

    /// `Value::as_str`.
    pub open spec fn as_str(self) -> Option<Seq<char>> {
        match self {
            JsonV::Str(s) => Some(s),
            _ => None,
        }
    }

    /// `Value::as_array`.
    pub open spec fn as_array(self) -> Option<Seq<JsonV>> {
        match self {
            JsonV::Array(items) => Some(items),
            _ => None,
        }
    }

    /// `Value::as_bool`.
    pub open spec fn as_bool(self) -> Option<bool> {
        match self {
            JsonV::Bool(b) => Some(b),
            _ => None,
        }
    }

    /// `Value::as_u64`.
    pub open spec fn as_u64(self) -> Option<u64> {
        match self {
            JsonV::Number(NumV::PosInt(u)) => Some(u),
            _ => None,
        }
    }

    /// `Value::as_i64`.
    pub open spec fn as_i64(self) -> Option<i64> {
        match self {
            JsonV::Number(NumV::PosInt(u)) => if u <= i64::MAX {
                Some(u as i64)
            } else {
                None
            },
            JsonV::Number(NumV::NegInt(i)) => Some(i),
            _ => None,
        }
    }

    /// `Value::is_null`.
    pub open spec fn is_null(self) -> bool {
        self is Null
    }

    /// A string member of an object.
    pub open spec fn get_str(self, key: Seq<char>) -> Option<Seq<char>> {
        match self.get(key) {
            Some(v) => v.as_str(),
            None => None,
        }
    }

    /// A string member of an object, or `default`.
    pub open spec fn str_or(self, key: Seq<char>, default: Seq<char>) -> Seq<char> {
        match self.get_str(key) {
            Some(s) => s,
            None => default,
        }
    }

    /// A member two levels down (`Value::pointer` with a two-token path).
    pub open spec fn get2(self, a: Seq<char>, b: Seq<char>) -> Option<JsonV> {
        match self.get(a) {
            Some(v) => v.get(b),
            None => None,
        }
    }

    /// A string two levels down.
    pub open spec fn get2_str(self, a: Seq<char>, b: Seq<char>) -> Option<Seq<char>> {
        match self.get2(a, b) {
            Some(v) => v.as_str(),
            None => None,
        }
    }

    /// A non-negative integer member, or 0.
    pub open spec fn u64_or_zero(self, key: Seq<char>) -> u64 {
        match self.get(key) {
            Some(v) => match v.as_u64() {
                Some(u) => u,
                None => 0,
            },
            None => 0,
        }
    }

    /// An object with the member `key` set to `v`: replaced where it exists,
    /// added at the end otherwise.
    pub open spec fn set(self, key: Seq<char>, v: JsonV) -> JsonV {
        match self {
            JsonV::Object(entries) => JsonV::Object(set_member(entries, key, v)),
            _ => self,
        }
    }
}

/// `entries` with the member `key` set to `v`.
pub open spec fn set_member(entries: Seq<(Seq<char>, JsonV)>, key: Seq<char>, v: JsonV) -> Seq<(Seq<char>, JsonV)>
    decreases entries.len(),
{
    if entries.len() == 0 {
        seq![(key, v)]
    } else if entries[0].0 == key {
        entries.update(0, (key, v))
    } else {
        seq![entries[0]] + set_member(entries.drop_first(), key, v)
    }
}

proof fn lemma_member_set(entries: Seq<(Seq<char>, JsonV)>, key: Seq<char>, k2: Seq<char>, v: JsonV)
    ensures
        member(set_member(entries, key, v), key) == Some(v),
        k2 != key ==> member(set_member(entries, key, v), k2) == member(entries, k2),
    decreases entries.len(),
{
    if entries.len() > 0 && entries[0].0 != key {
        lemma_member_set(entries.drop_first(), key, k2, v);
        let s = set_member(entries, key, v);
        assert(s[0] == entries[0]);
        assert(s.drop_first() =~= set_member(entries.drop_first(), key, v));
    } else if entries.len() > 0 {
        let s = set_member(entries, key, v);
        assert(s[0] == (key, v));
        assert(s.drop_first() =~= entries.drop_first());
    } else {
        assert(seq![(key, v)].drop_first() =~= Seq::<(Seq<char>, JsonV)>::empty());
        assert(member(Seq::<(Seq<char>, JsonV)>::empty(), k2) is None);
    }
}

/// Reading a member of an object gives back what was last set under its key,
/// and setting a member leaves every other member as it was.
pub proof fn law_get_after_set(o: JsonV, key: Seq<char>, other: Seq<char>, v: JsonV)
    requires
        o is Object,
    ensures
        o.set(key, v).get(key) == Some(v),
        other != key ==> o.set(key, v).get(other) == o.get(other),
        o.set(key, v) is Object,
{
    match o {
        JsonV::Object(entries) => {
            lemma_member_set(entries, key, other, v);
        },
        _ => {},
    }
}

/// A JSON string.
pub open spec fn jstr(s: Seq<char>) -> JsonV {
    JsonV::Str(s)
}

/// A JSON integer from an unsigned value.
pub open spec fn jnum(u: u64) -> JsonV {
    JsonV::Number(NumV::PosInt(u))
}

/// A JSON integer from a signed value, as serde_json stores it.
pub open spec fn jint(i: i64) -> JsonV {
    if i >= 0 {
        JsonV::Number(NumV::PosInt(i as u64))
    } else {
        JsonV::Number(NumV::NegInt(i))
    }
}

/// `Option::unwrap_or` on JSON values.
pub open spec fn or_else(o: Option<JsonV>, d: JsonV) -> JsonV {
    match o {
        Some(v) => v,
        None => d,
    }
}

/// The empty object.
pub open spec fn empty_obj() -> JsonV {
    JsonV::Object(Seq::empty())
}

impl Json {
    /// The member `key` of an object; `None` for a missing key or a non-object.
    pub fn get(&self, key: &str) -> (r: Option<&Json>)
        ensures
            match r {
                Some(v) => self@.get(key@) == Some(v@),
                None => self@.get(key@) is None,
            },
    {
        broadcast use group_json_view;
        match self {
            Json::Object(entries) => {
                let mut i: usize = 0;
                proof {
                    lemma_entries_view(entries@);
                    assert(entries_view(entries@).subrange(0, entries@.len() as int) =~= entries_view(entries@));
                }
                while i < entries.len()
                    invariant
                        i <= entries@.len(),
                        entries_view(entries@).len() == entries@.len(),
                        forall|k: int| 0 <= k < entries@.len() ==> #[trigger] entries_view(entries@)[k] == (
                            entries@[k].0@,
                            json_view(entries@[k].1),
                        ),
                        self@ == JsonV::Object(entries_view(entries@)),
                        member(entries_view(entries@), key@) == member(
                            entries_view(entries@).subrange(i as int, entries@.len() as int),
                            key@,
                        ),
                    decreases entries@.len() - i,
                {
                    let ghost rest = entries_view(entries@).subrange(i as int, entries@.len() as int);
                    if str_eq(entries[i].0.as_str(), key) {
                        return Some(&entries[i].1);
                    }
                    proof {
                        assert(rest.drop_first() =~= entries_view(entries@).subrange(
                            i + 1,
                            entries@.len() as int,
                        ));
                    }
                    i = i + 1;
                }
                None
            },
            _ => None,
        }
    }

    /// The text of a string value.
    pub fn as_str(&self) -> (r: Option<&str>)
        ensures
            match r {
                Some(s) => self@.as_str() == Some(s@),
                None => self@.as_str() is None,
            },
    {
        match self {
            Json::String(s) => Some(s.as_str()),
            _ => None,
        }
    }

    /// The items of an array value.
    pub fn as_array(&self) -> (r: Option<&Vec<Json>>)
        ensures
            match r {
                Some(items) => self@.as_array() == Some(items_view(items@)),
                None => self@.as_array() is None,
            },
    {
        match self {
            Json::Array(items) => Some(items),
            _ => None,
        }
    }

    /// The value of a boolean.
    pub fn as_bool(&self) -> (r: Option<bool>)
        ensures
            r == self@.as_bool(),
    {
        match self {
            Json::Bool(b) => Some(*b),
            _ => None,
        }
    }

    /// The value of a non-negative integer.
    pub fn as_u64(&self) -> (r: Option<u64>)
        ensures
            r == self@.as_u64(),
    {
        match self {
            Json::Number(JsonNumber::PosInt(u)) => Some(*u),
            _ => None,
        }
    }

    /// The value of an integer that fits in `i64`.
    pub fn as_i64(&self) -> (r: Option<i64>)
        ensures
            r == self@.as_i64(),
    {
        match self {
            Json::Number(JsonNumber::PosInt(u)) => if *u <= i64::MAX as u64 {
                Some(*u as i64)
            } else {
                None
            },
            Json::Number(JsonNumber::NegInt(i)) => Some(*i),
            _ => None,
        }
    }

    /// Whether the value is `null`.
    pub fn is_null(&self) -> (r: bool)
        ensures
            r == self@.is_null(),
    {
        match self {
            Json::Null => true,
            _ => false,
        }
    }

    /// The text of the string member `key`.
    pub fn get_str(&self, key: &str) -> (r: Option<&str>)
        ensures
            match r {
                Some(s) => self@.get_str(key@) == Some(s@),
                None => self@.get_str(key@) is None,
            },
    {
        match self.get(key) {
            Some(v) => v.as_str(),
            None => None,
        }
    }

    /// The text of the string member `key`, or `default`.
    pub fn str_or<'a>(&'a self, key: &str, default: &'a str) -> (r: &'a str)
        ensures
            r@ == self@.str_or(key@, default@),
    {
        match self.get_str(key) {
            Some(s) => s,
            None => default,
        }
    }

    /// The member `b` of the member `a` (`Value::pointer("/a/b")`).
    pub fn get2(&self, a: &str, b: &str) -> (r: Option<&Json>)
        ensures
            match r {
                Some(v) => self@.get2(a@, b@) == Some(v@),
                None => self@.get2(a@, b@) is None,
            },
    {
        match self.get(a) {
            Some(v) => v.get(b),
            None => None,
        }
    }

    /// The text of the string member `b` of the member `a`.
    pub fn get2_str(&self, a: &str, b: &str) -> (r: Option<&str>)
        ensures
            match r {
                Some(s) => self@.get2_str(a@, b@) == Some(s@),
                None => self@.get2_str(a@, b@) is None,
            },
    {
        match self.get2(a, b) {
            Some(v) => v.as_str(),
            None => None,
        }
    }

    /// The non-negative integer member `key`, or 0.
    pub fn u64_or_zero(&self, key: &str) -> (r: u64)
        ensures
            r == self@.u64_or_zero(key@),
    {
        match self.get(key) {
            Some(v) => match v.as_u64() {
                Some(u) => u,
                None => 0,
            },
            None => 0,
        }
    }

    /// A copy of the member `key`, or `default`.
    pub fn get_or(&self, key: &str, default: Json) -> (r: Json)
        ensures
            r@ == or_else(self@.get(key@), default@),
    {
        match self.get(key) {
            Some(v) => v.deep_clone(),
            None => default,
        }
    }

    /// A copy of the value.
    pub fn deep_clone(&self) -> (r: Json)
        ensures
            r@ == self@,
        decreases self,
    {
        broadcast use group_json_view;
        match self {
            Json::Null => Json::Null,
            Json::Bool(b) => Json::Bool(*b),
            Json::Number(JsonNumber::PosInt(u)) => Json::Number(JsonNumber::PosInt(*u)),
            Json::Number(JsonNumber::NegInt(i)) => Json::Number(JsonNumber::NegInt(*i)),
            Json::Number(JsonNumber::Float(t)) => Json::Number(JsonNumber::Float(t.clone())),
            Json::String(s) => Json::String(s.clone()),
            Json::Array(items) => {
                let mut out: Vec<Json> = Vec::new();
                let mut i: usize = 0;
                proof {
                    assert forall|k: int| 0 <= k < items@.len() implies decreases_to!(*self => #[trigger] items@[k]) by {
                        assert(decreases_to!(*self => *items));
                        assert(decreases_to!(*items => items@));
                        assert(decreases_to!(items@ => items@[k]));
                    }
                }
                while i < items.len()
                    invariant
                        i <= items@.len(),
                        forall|k: int| 0 <= k < items@.len() ==> decreases_to!(*self => #[trigger] items@[k]),
                        items_view(out@) == items_view(items@).take(i as int),
                    decreases items@.len() - i,
                {
                    proof {
                        lemma_items_view(items@);
                    }
                    let c = items[i].deep_clone();
                    let ghost before = out@;
                    out.push(c);
                    proof {
                        assert(out@.drop_last() =~= before);
                        assert(items_view(items@).take(i as int + 1) =~= items_view(items@).take(
                            i as int,
                        ).push(json_view(items@[i as int])));
                    }
                    i = i + 1;
                }
                proof {
                    assert(items_view(items@).take(items@.len() as int) =~= items_view(items@));
                }
                Json::Array(out)
            },
            Json::Object(entries) => {
                let mut out: Vec<(String, Json)> = Vec::new();
                let mut i: usize = 0;
                proof {
                    assert forall|k: int| 0 <= k < entries@.len() implies decreases_to!(*self => #[trigger] entries@[k].1) by {
                        assert(decreases_to!(*self => *entries));
                        assert(decreases_to!(*entries => entries@));
                        assert(decreases_to!(entries@ => entries@[k]));
                        assert(decreases_to!(entries@[k] => entries@[k].1));
                    }
                }
                while i < entries.len()
                    invariant
                        i <= entries@.len(),
                        forall|k: int| 0 <= k < entries@.len() ==> decreases_to!(*self => #[trigger] entries@[k].1),
                        entries_view(out@) == entries_view(entries@).take(i as int),
                    decreases entries@.len() - i,
                {
                    proof {
                        lemma_entries_view(entries@);
                    }
                    let c = entries[i].1.deep_clone();
                    let k = entries[i].0.clone();
                    let ghost before = out@;
                    out.push((k, c));
                    proof {
                        assert(out@.drop_last() =~= before);
                        assert(entries_view(entries@).take(i as int + 1) =~= entries_view(
                            entries@,
                        ).take(i as int).push((entries@[i as int].0@, json_view(entries@[i as int].1))));
                    }
                    i = i + 1;
                }
                proof {
                    assert(entries_view(entries@).take(entries@.len() as int) =~= entries_view(entries@));
                }
                Json::Object(out)
            },
        }
    }
}


// ---------------------------------------------------------------------------
// Building values
// ---------------------------------------------------------------------------
proof fn lemma_set_member_found(e: Seq<(Seq<char>, JsonV)>, key: Seq<char>, v: JsonV, i: int)
    requires
        0 <= i < e.len(),
        e[i].0 == key,
        forall|k: int| 0 <= k < i ==> e[k].0 != key,
    ensures
        set_member(e, key, v) == e.update(i, (key, v)),
        member(e, key) == Some(e[i].1),
    decreases i,
{
    if i > 0 {
        lemma_set_member_found(e.drop_first(), key, v, i - 1);
        assert(seq![e[0]] + e.drop_first().update(i - 1, (key, v)) =~= e.update(i, (key, v)));
    }
}

proof fn lemma_set_member_absent(e: Seq<(Seq<char>, JsonV)>, key: Seq<char>, v: JsonV)
    requires
        forall|k: int| 0 <= k < e.len() ==> e[k].0 != key,
    ensures
        set_member(e, key, v) == e.push((key, v)),
        member(e, key) is None,
    decreases e.len(),
{
    if e.len() > 0 {
        lemma_set_member_absent(e.drop_first(), key, v);
        assert(seq![e[0]] + e.drop_first().push((key, v)) =~= e.push((key, v)));
    }
}

impl Json {
    /// An empty object.
    pub fn object() -> (r: Json)
        ensures
            r@ == empty_obj(),
    {
        let v: Vec<(String, Json)> = Vec::new();
        proof {
            assert(entries_view(v@) =~= Seq::<(Seq<char>, JsonV)>::empty());
        }
        Json::Object(v)
    }

    /// A string value holding a copy of `s`.
    pub fn from_str(s: &str) -> (r: Json)
        ensures
            r@ == JsonV::Str(s@),
    {
        Json::String(s.to_owned())
    }

    /// An unsigned integer value.
    pub fn from_u64(u: u64) -> (r: Json)
        ensures
            r@ == jnum(u),
    {
        Json::Number(JsonNumber::PosInt(u))
    }

    /// A signed integer value, stored as serde_json stores it.
    pub fn from_i64(i: i64) -> (r: Json)
        ensures
            r@ == jint(i),
    {
        if i >= 0 {
            Json::Number(JsonNumber::PosInt(i as u64))
        } else {
            Json::Number(JsonNumber::NegInt(i))
        }
    }

    /// An array of the given values.
    pub fn from_vec(items: Vec<Json>) -> (r: Json)
        ensures
            r@ == JsonV::Array(items_view(items@)),
    {
        Json::Array(items)
    }

    /// The object `self` with member `key` set to `value`: replaced where the
    /// key exists, added after the other members otherwise.
    pub fn set(self, key: &str, value: Json) -> (r: Json)
        requires
            self@ is Object,
        ensures
            r@ == self@.set(key@, value@),
    {
        broadcast use group_json_view;
        match self {
            Json::Object(mut entries) => {
                let ghost e = entries_view(entries@);
                let ghost before = entries@;
                let found = find_member(&entries, key);
                let owned_key = key.to_owned();
                match found {
                    Some(i) => {
                        proof {
                            lemma_set_member_found(e, key@, value@, i as int);
                        }
                        entries.set(i, (owned_key, value));
                        proof {
                            lemma_entries_view(before);
                            lemma_entries_view(entries@);
                            assert(entries_view(entries@) =~= e.update(i as int, (key@, value@)));
                        }
                    },
                    None => {
                        proof {
                            lemma_set_member_absent(e, key@, value@);
                        }
                        entries.push((owned_key, value));
                        proof {
                            assert(entries@.drop_last() =~= before);
                            assert(entries_view(entries@) =~= e.push((key@, value@)));
                        }
                    },
                }
                Json::Object(entries)
            },
            _ => Json::Null,
        }
    }
}

/// The position of the first member named `key`.
fn find_member(entries: &Vec<(String, Json)>, key: &str) -> (r: Option<usize>)
    ensures
        match r {
            Some(i) => i < entries@.len() && entries_view(entries@)[i as int].0 == key@
                && forall|k: int| 0 <= k < i ==> entries_view(entries@)[k].0 != key@,
            None => forall|k: int| 0 <= k < entries@.len() ==> entries_view(entries@)[k].0 != key@,
        },
        entries_view(entries@).len() == entries@.len(),
{
    proof {
        lemma_entries_view(entries@);
    }
    let mut i: usize = 0;
    while i < entries.len()
        invariant
            i <= entries@.len(),
            entries_view(entries@).len() == entries@.len(),
            forall|k: int| 0 <= k < entries@.len() ==> #[trigger] entries_view(entries@)[k] == (
                entries@[k].0@,
                json_view(entries@[k].1),
            ),
            forall|k: int| 0 <= k < i ==> entries_view(entries@)[k].0 != key@,
        decreases entries@.len() - i,
    {
        if str_eq(entries[i].0.as_str(), key) {
            return Some(i);
        }
        i = i + 1;
    }
    None
}

// ---------------------------------------------------------------------------
// JSON text, through serde_json
// ---------------------------------------------------------------------------
#[verifier::external_type_specification]
#[verifier::external_body]
pub struct ExSerdeValue(serde_json::Value);

#[verifier::external_type_specification]
#[verifier::external_body]
pub struct ExSerdeNumber(serde_json::Number);

/// What `serde_json::to_string` writes for a value: its compact JSON text.
pub uninterp spec fn json_text(v: JsonV) -> Seq<char>;

/// What `serde_json::from_str::<serde_json::Value>` reads from a text: the
/// value, or `None` where the text is not a JSON document.
pub uninterp spec fn json_parse(text: Seq<char>) -> Option<JsonV>;

/// Rebuilds a number as a `serde_json::Value`; a float is read back from its
/// JSON text by `serde_json::Number`'s `FromStr`. A float text that does not
/// read as a number, which never comes from serde_json, becomes `null`.
#[verifier::external_body]
fn number_to_serde(n: &JsonNumber) -> serde_json::Value {
    match n {
        JsonNumber::PosInt(u) => serde_json::Value::from(*u),
        JsonNumber::NegInt(i) => serde_json::Value::from(*i),
        JsonNumber::Float(t) => t.parse::<serde_json::Number>().map(serde_json::Value::Number).unwrap_or(serde_json::Value::Null),
    }
}

/// Rebuilds a value as a `serde_json::Value`, member for member; a float is
/// read back from its JSON text by `serde_json::Number`'s `FromStr`.
#[verifier::external_body]
fn to_serde(v: &Json) -> serde_json::Value {
    match v {
        Json::Null => serde_json::Value::Null,
        Json::Bool(b) => serde_json::Value::Bool(*b),
        Json::Number(n) => number_to_serde(n),
        Json::String(s) => serde_json::Value::String(s.clone()),
        Json::Array(items) => serde_json::Value::Array(items.iter().map(to_serde).collect()),
        Json::Object(entries) => serde_json::Value::Object(entries.iter().map(|(k, x)| (k.clone(), to_serde(x))).collect()),
    }
}

/// Rebuilds a `serde_json::Number`: an integer as itself, a float as its
/// JSON text.
#[verifier::external_body]
fn number_from_serde(n: &serde_json::Number) -> JsonNumber {
    match (n.as_u64(), n.as_i64()) {
        (Some(u), _) => JsonNumber::PosInt(u),
        (None, Some(i)) => JsonNumber::NegInt(i),
        (None, None) => JsonNumber::Float(n.to_string()),
    }
}

/// Rebuilds a `serde_json::Value` as a value of this library, member for
/// member; a float is kept as its JSON text.
#[verifier::external_body]
fn from_serde(v: &serde_json::Value) -> Json {
    match v {
        serde_json::Value::Null => Json::Null,
        serde_json::Value::Bool(b) => Json::Bool(*b),
        serde_json::Value::Number(n) => Json::Number(number_from_serde(n)),
        serde_json::Value::String(s) => Json::String(s.clone()),
        serde_json::Value::Array(items) => Json::Array(items.iter().map(from_serde).collect()),
        serde_json::Value::Object(map) => Json::Object(map.iter().map(|(k, x)| (k.clone(), from_serde(x))).collect()),
    }
}

/// `serde_json::to_string` of a value; its result is named `json_text`.
#[verifier::external_body]
pub(crate) fn to_json_text(v: &Json) -> (r: String)
    ensures
        r@ == json_text(v@),
{
    serde_json::to_string(&to_serde(v)).unwrap_or_default()
}

/// `serde_json::from_str::<serde_json::Value>`; its result is named `json_parse`.
#[verifier::external_body]
pub(crate) fn parse_json_text(text: &str) -> (r: Option<Json>)
    ensures
        match r {
            Some(v) => json_parse(text@) == Some(v@),
            None => json_parse(text@) is None,
        },
{
    serde_json::from_str::<serde_json::Value>(text).ok().map(|v| from_serde(&v))
}

} // verus!
