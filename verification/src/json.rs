//! JSON values of the library, and their text form through `serde_json`.
use crate::text::{keys_of, same_text};
use vstd::prelude::*;

verus! {

/// A number as JSON writes it.
#[derive(Debug)]
pub enum Number {
    /// Zero or above.
    PosInt(u64),
    /// Below zero; zero and above is the same number as a `PosInt`.
    NegInt(i64),
    /// Any other number.
    Other(Decimal),
}

/// A number that is no integer, by the text that `serde_json` writes for it. Only a value that
/// was read holds one.
#[derive(Debug)]
pub struct Decimal {
    text: String,
}

impl Decimal {
    /// The number's text.
    pub closed spec fn text(&self) -> Seq<char> {
        self.text@
    }
}

/// A JSON value. In an object the last member of a name counts.
#[derive(Debug)]
pub enum Json {
    Null,
    Bool(bool),
    Number(Number),
    Text(String),
    Array(Vec<Json>),
    Object(Vec<(String, Json)>),
}

/// What a number is.
#[verifier::ext_equal]
pub ghost enum NumberModel {
    PosInt(u64),
    NegInt(i64),
    Other(Seq<char>),
}

/// What a JSON value is.
#[verifier::ext_equal]
pub ghost enum JsonModel {
    Null,
    Bool(bool),
    Number(NumberModel),
    Text(Seq<char>),
    Array(Seq<JsonModel>),
    Object(Map<Seq<char>, JsonModel>),
}

impl View for Number {
    type V = NumberModel;

    open spec fn view(&self) -> NumberModel {
        match self {
            Number::PosInt(n) => NumberModel::PosInt(*n),
            Number::NegInt(n) => if *n < 0 {
                NumberModel::NegInt(*n)
            } else {
                NumberModel::PosInt(*n as u64)
            },
            Number::Other(d) => NumberModel::Other(d.text()),
        }
    }
}

/// `i` is the last place of `key`.
pub open spec fn last_at(keys: Seq<Seq<char>>, key: Seq<char>, i: int) -> bool {
    &&& 0 <= i < keys.len()
    &&& keys[i] == key
    &&& forall|j: int| i < j < keys.len() ==> keys[j] != key
}

/// The last place of `key`.
pub open spec fn last_of(keys: Seq<Seq<char>>, key: Seq<char>) -> int {
    choose|i: int| last_at(keys, key, i)
}

/// What a value stands for.
pub open spec fn json_model(j: Json) -> JsonModel
    decreases j,
{
    match j {
        Json::Null => JsonModel::Null,
        Json::Bool(b) => JsonModel::Bool(b),
        Json::Number(n) => JsonModel::Number(n@),
        Json::Text(s) => JsonModel::Text(s@),
        Json::Array(items) => JsonModel::Array(
            Seq::new(
                items@.len(),
                |i: int|
                    if 0 <= i < items@.len() {
                        json_model(items@[i])
                    } else {
                        JsonModel::Null
                    },
            ),
        ),
        Json::Object(members) => JsonModel::Object(
            Map::new(
                |k: Seq<char>| keys_of(members@).contains(k),
                |k: Seq<char>|
                    {
                        let i = last_of(keys_of(members@), k);
                        if 0 <= i < members@.len() {
                            json_model(members@[i].1)
                        } else {
                            JsonModel::Null
                        }
                    },
            ),
        ),
    }
}

impl View for Json {
    type V = JsonModel;

    open spec fn view(&self) -> JsonModel {
        json_model(*self)
    }
}

impl DeepView for Json {
    type V = JsonModel;

    open spec fn deep_view(&self) -> JsonModel {
        self.view()
    }
}

/// A value of `serde_json`.
#[verifier::external_type_specification]
#[verifier::external_body]
pub struct ExValue(serde_json::Value);

/// What a value of `serde_json` holds.
pub uninterp spec fn value_model(value: serde_json::Value) -> JsonModel;

/// What `serde_json::from_str` reads from a text: nothing where the text is no JSON, or nests
/// deeper than it follows.
pub uninterp spec fn parsed_json(text: Seq<char>) -> Option<JsonModel>;

/// The compact text that `serde_json` writes for a value.
pub uninterp spec fn json_text(value: JsonModel) -> Seq<char>;

/// Calls `serde_json::from_str`: the value read is a function of the text.
#[verifier::external_body]
fn read_value(text: &str) -> (r: Option<serde_json::Value>)
    ensures
        r is Some == parsed_json(text@) is Some,
        r is Some ==> parsed_json(text@) == Some(value_model(r->0)),
{
    serde_json::from_str(text).ok()
}

/// How deep `serde_json::from_str` follows arrays and objects.
pub const MAX_DEPTH: u8 = 127;

/// Arrays and objects nest at most `depth` deep in a value.
pub open spec fn nests_within(value: JsonModel, depth: nat) -> bool
    decreases depth,
{
    match value {
        JsonModel::Array(items) => depth > 0 && forall|i: int|
            0 <= i < items.len() ==> nests_within(#[trigger] items[i], (depth - 1) as nat),
        JsonModel::Object(members) => depth > 0 && forall|k: Seq<char>|
            members.contains_key(k) ==> nests_within(#[trigger] members[k], (depth - 1) as nat),
        _ => true,
    }
}

/// Calls the `Display` of `serde_json::Value`, which writes compact JSON: the text is a function
/// of what the value holds, and `serde_json::from_str` reads the same value from it, numbers
/// included, unless arrays and objects nest too deep for it to follow.
#[verifier::external_body]
fn write_value(value: &serde_json::Value) -> (r: String)
    ensures
        r@ == json_text(value_model(*value)),
        nests_within(value_model(*value), MAX_DEPTH as nat) ==> parsed_json(r@) == Some(
            value_model(*value),
        ),
{
    value.to_string()
}

/// Takes a `serde_json::Value` apart: the result holds what the value holds. An object of
/// `serde_json` has each name once.
#[verifier::external_body]
fn from_value(value: serde_json::Value) -> (r: Json)
    ensures
        r@ == value_model(value),
{
    match value {
        serde_json::Value::Null => Json::Null,
        serde_json::Value::Bool(b) => Json::Bool(b),
        serde_json::Value::Number(n) => Json::Number(match (n.as_u64(), n.as_i64()) {
            (Some(u), _) => Number::PosInt(u),
            (None, Some(i)) => Number::NegInt(i),
            _ => Number::Other(Decimal { text: n.to_string() }),
        }),
        serde_json::Value::String(s) => Json::Text(s),
        serde_json::Value::Array(a) => Json::Array(a.into_iter().map(from_value).collect()),
        serde_json::Value::Object(m) => Json::Object(
            m.into_iter().map(|(k, v)| (k, from_value(v))).collect(),
        ),
    }
}

/// Calls the `From` of `serde_json::Value` for integers, and `serde_json::Number::from_f64` on the
/// number that a decimal's text reads as: the value is that number. A decimal's text is what
/// `serde_json` wrote for a finite number, and reads as the same number again.
#[verifier::external_body]
fn number_value(number: &Number) -> (r: serde_json::Value)
    ensures
        value_model(r) == JsonModel::Number(number@),
{
    match number {
        Number::PosInt(u) => serde_json::Value::from(*u),
        Number::NegInt(i) => serde_json::Value::from(*i),
        Number::Other(d) => serde_json::Value::from(
            d.text.parse().ok().and_then(serde_json::Number::from_f64),
        ),
    }
}

/// Builds a `serde_json::Value`: it holds what `json` holds. Of members with one name the last
/// stays, as insertion into a `serde_json` object leaves it.
#[verifier::external_body]
pub(crate) fn to_value(json: &Json) -> (r: serde_json::Value)
    ensures
        value_model(r) == json@,
{
    match json {
        Json::Null => serde_json::Value::Null,
        Json::Bool(b) => serde_json::Value::Bool(*b),
        Json::Number(n) => number_value(n),
        Json::Text(s) => serde_json::Value::String(s.clone()),
        Json::Array(a) => serde_json::Value::Array(a.iter().map(to_value).collect()),
        Json::Object(m) => serde_json::Value::Object(
            m.iter().map(|(k, v)| (k.clone(), to_value(v))).collect(),
        ),
    }
}

/// Reads a JSON text.
pub fn parse(text: &str) -> (r: Option<Json>)
    ensures
        (match r {
            Some(j) => parsed_json(text@) == Some(j@),
            None => parsed_json(text@) is None,
        }),
{
    match read_value(text) {
        Some(value) => Some(from_value(value)),
        None => None,
    }
}

impl Json {
    /// The compact JSON text of a value. What was written is read again, unless it nests too deep.
    pub fn to_text(&self) -> (r: String)
        ensures
            r@ == json_text(self@),
            nests_within(self@, MAX_DEPTH as nat) ==> parsed_json(r@) == Some(self@),
    {
        write_value(&to_value(self))
    }
}

/// What stands behind an optional value: nothing counts as null.
pub open spec fn seen(v: Option<&Json>) -> JsonModel {
    match v {
        Some(j) => j@,
        None => JsonModel::Null,
    }
}

impl JsonModel {
    /// The member of a name; null where there is none.
    pub open spec fn at(self, key: Seq<char>) -> JsonModel {
        match self {
            JsonModel::Object(m) => if m.dom().contains(key) {
                m[key]
            } else {
                JsonModel::Null
            },
            _ => JsonModel::Null,
        }
    }

    /// Whether this is an object with a member of that name.
    pub open spec fn has(self, key: Seq<char>) -> bool {
        self matches JsonModel::Object(m) && m.dom().contains(key)
    }

    /// The text, if this is one.
    pub open spec fn text(self) -> Option<Seq<char>> {
        match self {
            JsonModel::Text(s) => Some(s),
            _ => None,
        }
    }

    /// The integer, if this is one from zero up.
    pub open spec fn count(self) -> Option<u64> {
        match self {
            JsonModel::Number(NumberModel::PosInt(n)) => Some(n),
            _ => None,
        }
    }

    /// The items, if this is an array.
    pub open spec fn items(self) -> Option<Seq<JsonModel>> {
        match self {
            JsonModel::Array(items) => Some(items),
            _ => None,
        }
    }

    /// This object with one member put in.
    pub open spec fn with(self, key: Seq<char>, value: JsonModel) -> JsonModel {
        match self {
            JsonModel::Object(m) => JsonModel::Object(m.insert(key, value)),
            other => other,
        }
    }
}

/// The object without members.
pub open spec fn empty_object() -> JsonModel {
    JsonModel::Object(Map::empty())
}

/// The number `n`.
pub open spec fn count_model(n: u64) -> JsonModel {
    JsonModel::Number(NumberModel::PosInt(n))
}

/// The text, or null where there is none.
pub open spec fn text_or_null(s: Option<Seq<char>>) -> JsonModel {
    match s {
        Some(t) => JsonModel::Text(t),
        None => JsonModel::Null,
    }
}

/// The number, or null where there is none.
pub open spec fn count_or_null(n: Option<u64>) -> JsonModel {
    match n {
        Some(c) => count_model(c),
        None => JsonModel::Null,
    }
}

/// An array of texts.
pub open spec fn text_array(items: Seq<Seq<char>>) -> JsonModel {
    JsonModel::Array(Seq::new(items.len(), |i: int| JsonModel::Text(items[i])))
}

/// The views of a sequence of values.
pub open spec fn models(items: Seq<Json>) -> Seq<JsonModel> {
    Seq::new(items.len(), |i: int| items[i]@)
}

proof fn lemma_array(items: Vec<Json>)
    ensures
        Json::Array(items)@ == JsonModel::Array(models(items@)),
{
    let a = Json::Array(items)@;
    assert(a->Array_0 =~= models(items@));
}

proof fn lemma_last(keys: Seq<Seq<char>>, key: Seq<char>, i: int)
    requires
        last_at(keys, key, i),
    ensures
        last_of(keys, key) == i,
        keys.contains(key),
{
    let j = last_of(keys, key);
    assert(last_at(keys, key, j));
    if i < j {
        assert(keys[j] != key);
    } else if j < i {
        assert(keys[i] != key);
    }
}

/// Some place of a key is the last.
proof fn lemma_last_exists(keys: Seq<Seq<char>>, key: Seq<char>)
    requires
        keys.contains(key),
    ensures
        last_at(keys, key, last_of(keys, key)),
    decreases keys.len(),
{
    if keys.last() == key {
        assert(last_at(keys, key, keys.len() - 1));
    } else {
        let front = keys.drop_last();
        let k = choose|k: int| 0 <= k < keys.len() && keys[k] == key;
        assert(front[k] == key);
        lemma_last_exists(front, key);
        let j = last_of(front, key);
        assert(keys[j] == front[j]);
        assert forall|i: int| j < i < keys.len() implies keys[i] != key by {
            if i < front.len() {
                assert(keys[i] == front[i]);
            }
        }
        assert(last_at(keys, key, j));
    }
}

/// The member of a name.
pub fn member<'a>(v: Option<&'a Json>, key: &str) -> (r: Option<&'a Json>)
    ensures
        seen(r) == seen(v).at(key@),
        r is Some == seen(v).has(key@),
{
    match v {
        Some(Json::Object(members)) => {
            let ghost keys = keys_of(members@);
            let mut i: usize = members.len();
            while i > 0
                invariant
                    v == Some(&Json::Object(*members)),
                    keys == keys_of(members@),
                    i <= members@.len(),
                    forall|j: int| i <= j < members@.len() ==> keys[j] != key@,
                decreases i,
            {
                i -= 1;
                if same_text(members[i].0.as_str(), key) {
                    proof {
                        assert(last_at(keys, key@, i as int));
                        lemma_last(keys, key@, i as int);
                    }
                    return Some(&members[i].1);
                }
            }
            None
        },
        _ => None,
    }
}

/// The text, if the value is one.
pub fn as_text<'a>(v: Option<&'a Json>) -> (r: Option<&'a String>)
    ensures
        (match r {
            Some(s) => seen(v).text() == Some(s@),
            None => seen(v).text() is None,
        }),
{
    match v {
        Some(Json::Text(s)) => Some(s),
        _ => None,
    }
}

/// Whether the value is that text.
pub fn is_text(v: Option<&Json>, s: &str) -> (r: bool)
    ensures
        r == (seen(v) == JsonModel::Text(s@)),
{
    match as_text(v) {
        Some(t) => same_text(t.as_str(), s),
        None => false,
    }
}

/// The integer, if the value is one from zero up.
pub fn as_count(v: Option<&Json>) -> (r: Option<u64>)
    ensures
        r == seen(v).count(),
{
    match v {
        Some(Json::Number(Number::PosInt(n))) => Some(*n),
        Some(Json::Number(Number::NegInt(n))) => if *n < 0 {
            None
        } else {
            Some(*n as u64)
        },
        _ => None,
    }
}

/// The items, if the value is an array.
pub fn as_array<'a>(v: Option<&'a Json>) -> (r: Option<&'a Vec<Json>>)
    ensures
        (match r {
            Some(items) => seen(v).items() == Some(models(items@)),
            None => seen(v).items() is None,
        }),
{
    match v {
        Some(Json::Array(items)) => {
            proof {
                lemma_array(*items);
            }
            Some(items)
        },
        _ => None,
    }
}

/// Whether the value is an object.
pub fn is_object(v: Option<&Json>) -> (r: bool)
    ensures
        r == (seen(v) is Object),
{
    match v {
        Some(Json::Object(_)) => true,
        _ => false,
    }
}

/// Whether the value is null or absent.
pub fn is_null(v: Option<&Json>) -> (r: bool)
    ensures
        r == (seen(v) is Null),
{
    match v {
        None => true,
        Some(Json::Null) => true,
        _ => false,
    }
}

/// The names of the members of an object, and none of another value. A name can come twice.
pub fn member_names(v: Option<&Json>) -> (r: Vec<String>)
    ensures
        forall|k: Seq<char>|
            r.deep_view().contains(k) <==> seen(v) is Object && seen(
                v,
            )->Object_0.dom().contains(k),
{
    let mut out: Vec<String> = Vec::new();
    if let Some(value) = v {
        if let Json::Object(members) = value {
            let mut i: usize = 0;
            while i < members.len()
                invariant
                    i <= members@.len(),
                    out.deep_view() =~= keys_of(members@).take(i as int),
                decreases members@.len() - i,
            {
                let ghost before = out.deep_view();
                out.push(members[i].0.clone());
                assert(out.deep_view() =~= before.push(keys_of(members@)[i as int]));
                i += 1;
            }
            assert(out.deep_view() =~= keys_of(members@));
        } else {
            assert(out.deep_view() =~= Seq::<Seq<char>>::empty());
        }
    } else {
        assert(out.deep_view() =~= Seq::<Seq<char>>::empty());
    }
    out
}

/// The text as a value.
pub fn text_value(s: &str) -> (r: Json)
    ensures
        r@ == JsonModel::Text(s@),
{
    Json::Text(s.to_owned())
}

/// The number as a value.
pub fn count_value(n: u64) -> (r: Json)
    ensures
        r@ == count_model(n),
{
    Json::Number(Number::PosInt(n))
}

/// The text as a value, or null.
pub fn text_or_null_value(s: &Option<String>) -> (r: Json)
    ensures
        r@ == text_or_null(s.deep_view()),
{
    match s {
        Some(t) => Json::Text(t.clone()),
        None => Json::Null,
    }
}

/// The number as a value, or null.
pub fn count_or_null_value(n: Option<u64>) -> (r: Json)
    ensures
        r@ == count_or_null(n),
{
    match n {
        Some(c) => count_value(c),
        None => Json::Null,
    }
}

/// The items as an array.
pub fn array_value(items: Vec<Json>) -> (r: Json)
    ensures
        r@ == JsonModel::Array(models(items@)),
{
    proof {
        lemma_array(items);
    }
    Json::Array(items)
}

/// The texts as an array.
pub fn text_array_value(items: &Vec<String>) -> (r: Json)
    ensures
        r@ == text_array(items.deep_view()),
{
    let mut out: Vec<Json> = Vec::new();
    let mut i: usize = 0;
    while i < items.len()
        invariant
            i <= items@.len(),
            out@.len() == i,
            forall|j: int| 0 <= j < i ==> (#[trigger] out@[j])@ == JsonModel::Text(items@[j]@),
        decreases items@.len() - i,
    {
        out.push(Json::Text(items[i].clone()));
        i += 1;
    }
    proof {
        lemma_array(out);
        assert(models(out@) =~= text_array(items.deep_view())->Array_0);
    }
    Json::Array(out)
}

/// An object under construction.
pub struct ObjectBuilder {
    members: Vec<(String, Json)>,
}

impl View for ObjectBuilder {
    type V = JsonModel;

    closed spec fn view(&self) -> JsonModel {
        Json::Object(self.members)@
    }
}

impl ObjectBuilder {
    /// The object without members.
    pub fn new() -> (r: Self)
        ensures
            r@ == empty_object(),
    {
        let r = ObjectBuilder { members: Vec::new() };
        assert(r@->Object_0 =~= Map::empty());
        r
    }

    /// The object with one more member.
    pub fn with(self, key: &str, value: Json) -> (r: Self)
        ensures
            r@ == self@.with(key@, value@),
    {
        let r = extend_object(self.members, key, value);
        ObjectBuilder { members: r }
    }

    /// The finished object.
    pub fn build(self) -> (r: Json)
        ensures
            r@ == self@,
    {
        Json::Object(self.members)
    }
}

/// One more member at the end of an object's list.
pub fn extend_object(members: Vec<(String, Json)>, key: &str, value: Json) -> (r: Vec<
    (String, Json),
>)
    ensures
        Json::Object(r)@ == Json::Object(members)@.with(key@, value@),
{
    let mut out = members;
    let ghost before = members@;
    out.push((key.to_owned(), value));
    proof {
        let keys = keys_of(before);
        let now = keys_of(out@);
        let m = Json::Object(members)@->Object_0;
        let n = Json::Object(out)@->Object_0;
        assert(last_at(now, key@, before.len() as int));
        lemma_last(now, key@, before.len() as int);
        assert forall|k: Seq<char>| k != key@ implies (#[trigger] m.dom().contains(k)
            <==> n.dom().contains(k)) && (m.dom().contains(k) ==> m[k] == n[k]) by {
            if keys.contains(k) {
                lemma_last_exists(keys, k);
                let i = last_of(keys, k);
                assert(last_at(now, k, i)) by {
                    assert(now[i] == keys[i]);
                    assert forall|j: int| i < j < now.len() implies now[j] != k by {
                        if j < before.len() {
                            assert(now[j] == keys[j]);
                        }
                    }
                }
                lemma_last(now, k, i);
            }
            if now.contains(k) {
                let i = choose|i: int| 0 <= i < now.len() && now[i] == k;
                assert(keys[i] == k);
            }
        }
        assert(out@[before.len() as int].1 == value);
        assert(n.dom().contains(key@) && n[key@] == value@);
        let with = m.insert(key@, value@);
        assert(n =~= with);
    }
    out
}

impl Clone for Number {
    fn clone(&self) -> (r: Self)
        ensures
            r@ == self@,
    {
        match self {
            Number::PosInt(n) => Number::PosInt(*n),
            Number::NegInt(n) => Number::NegInt(*n),
            Number::Other(d) => Number::Other(Decimal { text: d.text.clone() }),
        }
    }
}

impl Clone for Json {
    fn clone(&self) -> (r: Self)
        ensures
            r@ == self@,
        decreases self,
    {
        match self {
            Json::Null => Json::Null,
            Json::Bool(b) => Json::Bool(*b),
            Json::Number(n) => Json::Number(n.clone()),
            Json::Text(s) => Json::Text(s.clone()),
            Json::Array(items) => {
                let mut out: Vec<Json> = Vec::new();
                let mut i: usize = 0;
                while i < items.len()
                    invariant
                        self == Json::Array(*items),
                        i <= items@.len(),
                        out@.len() == i,
                        forall|j: int| 0 <= j < i ==> (#[trigger] out@[j])@ == items@[j]@,
                    decreases items@.len() - i,
                {
                    proof {
                        assert(decreases_to!(*self => self->Array_0));
                        assert(decreases_to!(self->Array_0 => items@));
                        assert(decreases_to!(items@ => items@[i as int]));
                    }
                    out.push(items[i].clone());
                    i += 1;
                }
                let r = Json::Array(out);
                proof {
                    assert(r@->Array_0 =~= self@->Array_0);
                }
                r
            },
            Json::Object(members) => {
                let mut out: Vec<(String, Json)> = Vec::new();
                let mut i: usize = 0;
                while i < members.len()
                    invariant
                        self == Json::Object(*members),
                        i <= members@.len(),
                        out@.len() == i,
                        forall|j: int| 0 <= j < i ==> (#[trigger] out@[j]).0@ == members@[j].0@,
                        forall|j: int| 0 <= j < i ==> (#[trigger] out@[j]).1@ == members@[j].1@,
                    decreases members@.len() - i,
                {
                    proof {
                        assert(decreases_to!(*self => self->Object_0));
                        assert(decreases_to!(self->Object_0 => members@));
                        assert(decreases_to!(members@ => members@[i as int]));
                        assert(decreases_to!(members@[i as int] => members@[i as int].1));
                    }
                    out.push((members[i].0.clone(), members[i].1.clone()));
                    i += 1;
                }
                let r = Json::Object(out);
                proof {
                    assert(keys_of(out@) =~= keys_of(members@));
                    assert(r@->Object_0 =~= self@->Object_0);
                }
                r
            },
        }
    }
}

/// A member that was put in is read again, and the others stay; what is no object has no members.
pub proof fn lemma_members(m: Map<Seq<char>, JsonModel>, key: Seq<char>, v: JsonModel, other: Seq<char>)
    ensures
        ({
            let o = JsonModel::Object(m);
            &&& o.with(key, v).at(key) == v && o.with(key, v).has(key)
            &&& other != key ==> o.with(key, v).at(other) == o.at(other)
            &&& other != key ==> o.with(key, v).has(other) == o.has(other)
            &&& o.has(key) <==> m.contains_key(key)
            &&& o.has(key) ==> o.at(key) == m[key]
            &&& !o.has(key) ==> o.at(key) is Null
            &&& !empty_object().has(key)
            &&& !(v is Object) ==> !v.has(key) && v.at(key) is Null
        }),
{
}

/// What a value is read as: a text, a count and items are those of a text, a number from zero up
/// and an array, and of nothing else. Texts make an array in their order, and what is absent is
/// null.
pub proof fn lemma_plain_values(v: JsonModel, n: u64, s: Seq<char>, items: Seq<Seq<char>>, i: int)
    ensures
        v.text() == Some(s) <==> v == JsonModel::Text(s),
        v.count() == Some(n) <==> v == JsonModel::Number(NumberModel::PosInt(n)),
        v.items() is Some <==> v is Array,
        v is Array ==> v.items() == Some(v->Array_0),
        count_model(n) == JsonModel::Number(NumberModel::PosInt(n)),
        text_or_null(Some(s)) == JsonModel::Text(s) && text_or_null(None) is Null,
        count_or_null(Some(n)) == count_model(n) && count_or_null(None) is Null,
        text_array(items) is Array && text_array(items)->Array_0.len() == items.len(),
        0 <= i < items.len() ==> text_array(items)->Array_0[i] == JsonModel::Text(items[i]),
{
}

} // verus!
