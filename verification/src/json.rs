//! JSON values as the library holds them, and the JSON operations it takes
//! from `serde_json`.

use vstd::prelude::*;
use vstd::string::*;

use crate::text::{decimal, decimal_string, join, str_eq};

verus! {

#[verifier::external_type_specification]
#[verifier::external_body]
pub struct ExSerdeValue(serde_json::Value);

#[verifier::external_type_specification]
#[verifier::external_body]
pub struct ExSerdeNumber(serde_json::Number);

/// A JSON number: a non-negative integer, a negative integer, or a
/// floating-point number held as its decimal text.
#[derive(Debug, Clone)]
pub enum JsonNumber {
    PosInt(u64),
    NegInt(i64),
    Float(String),
}

/// A JSON value.
#[derive(Debug)]
pub enum JsonValue {
    Null,
    Bool(bool),
    Number(JsonNumber),
    String(String),
    Array(Vec<JsonValue>),
    Object(Vec<(String, JsonValue)>),
}

/// The value `serde_json::from_str` parses from a text, if the text is JSON.
pub uninterp spec fn parsed_json(text: Seq<char>) -> Option<JsonModel>;

/// The value `serde_json::Value::pointer` finds in a value under a pointer.
pub uninterp spec fn pointer_target(value: JsonModel, pointer: Seq<char>) -> Option<JsonModel>;

/// Whether two values are equal as `serde_json::Value`s.
pub uninterp spec fn json_same(a: JsonModel, b: JsonModel) -> bool;

/// The model of an optional value.
pub open spec fn opt_model(v: Option<JsonValue>) -> Option<JsonModel> {
    match v {
        Some(x) => Some(model(x)),
        None => None,
    }
}

/// The position of the first member named `key`.
pub open spec fn member_position(members: Seq<(String, JsonValue)>, key: Seq<char>) -> Option<int> {
    if exists|i: int| 0 <= i < members.len() && members[i].0@ == key {
        Some(choose|i: int| 0 <= i < members.len() && members[i].0@ == key
            && forall|j: int| 0 <= j < i ==> members[j].0@ != key)
    } else {
        None
    }
}

/// The member of an object named `key` (the first, should several share it).
pub open spec fn member(v: JsonValue, key: Seq<char>) -> Option<JsonValue> {
    match v {
        JsonValue::Object(members) => match member_position(members@, key) {
            Some(i) => Some(members@[i].1),
            None => None,
        },
        _ => None,
    }
}

/// The text of a string value.
pub open spec fn text_of(v: JsonValue) -> Option<Seq<char>> {
    match v {
        JsonValue::String(s) => Some(s@),
        _ => None,
    }
}

/// The value of a non-negative integer.
pub open spec fn u64_of(v: JsonValue) -> Option<u64> {
    match v {
        JsonValue::Number(JsonNumber::PosInt(n)) => Some(n),
        _ => None,
    }
}

/// The value of a boolean.
pub open spec fn bool_of(v: JsonValue) -> Option<bool> {
    match v {
        JsonValue::Bool(b) => Some(b),
        _ => None,
    }
}

/// The display text of a number.
pub open spec fn number_text(n: JsonNumber) -> Seq<char> {
    match n {
        JsonNumber::PosInt(u) => decimal(u as nat),
        JsonNumber::NegInt(i) => if i < 0 { "-"@ + decimal((-i) as nat) } else { decimal(i as nat) },
        JsonNumber::Float(t) => t@,
    }
}

/// A number as `serde_json` holds it; a floating-point text that is no
/// number becomes null.
#[verifier::external_body]
fn number_to_serde(n: &JsonNumber) -> serde_json::Value {
    match n {
        JsonNumber::PosInt(u) => serde_json::Value::from(*u),
        JsonNumber::NegInt(i) => serde_json::Value::from(*i),
        JsonNumber::Float(t) => t.parse::<serde_json::Number>().map(serde_json::Value::Number).unwrap_or(serde_json::Value::Null),
    }
}

/// A value as `serde_json` holds it.
#[verifier::external_body]
pub(crate) fn to_serde(v: &JsonValue) -> serde_json::Value {
    match v {
        JsonValue::Null => serde_json::Value::Null,
        JsonValue::Bool(b) => serde_json::Value::Bool(*b),
        JsonValue::Number(n) => number_to_serde(n),
        JsonValue::String(s) => serde_json::Value::String(s.clone()),
        JsonValue::Array(a) => serde_json::Value::Array(a.iter().map(to_serde).collect()),
        JsonValue::Object(m) => serde_json::Value::Object(m.iter().map(|(k, x)| (k.clone(), to_serde(x))).collect()),
    }
}

/// A `serde_json` number as the library holds it: by `Number::as_u64`, else
/// `Number::as_i64`, else its display text.
#[verifier::external_body]
fn number_from_serde(n: &serde_json::Number) -> JsonNumber {
    match (n.as_u64(), n.as_i64()) {
        (Some(u), _) => JsonNumber::PosInt(u),
        (None, Some(i)) => JsonNumber::NegInt(i),
        (None, None) => JsonNumber::Float(n.to_string()),
    }
}

/// A `serde_json` value as the library holds it.
#[verifier::external_body]
fn from_serde(v: &serde_json::Value) -> JsonValue {
    match v {
        serde_json::Value::Null => JsonValue::Null,
        serde_json::Value::Bool(b) => JsonValue::Bool(*b),
        serde_json::Value::Number(n) => JsonValue::Number(number_from_serde(n)),
        serde_json::Value::String(s) => JsonValue::String(s.clone()),
        serde_json::Value::Array(a) => JsonValue::Array(a.iter().map(from_serde).collect()),
        serde_json::Value::Object(m) => JsonValue::Object(m.iter().map(|(k, x)| (k.clone(), from_serde(x))).collect()),
    }
}

/// `serde_json::from_str::<Value>`: the value a text holds, if it is JSON.
#[verifier::external_body]
pub(crate) fn parse_json(text: &str) -> (r: Option<JsonValue>)
    ensures
        opt_model(r) == parsed_json(text@),
{
    serde_json::from_str::<serde_json::Value>(text).ok().map(|v| from_serde(&v))
}

/// `serde_json::Value::pointer`: the value under a JSON pointer.
#[verifier::external_body]
pub(crate) fn pointer(value: &JsonValue, ptr: &str) -> (r: Option<JsonValue>)
    ensures
        opt_model(r) == pointer_target(model(*value), ptr@),
{
    to_serde(value).pointer(ptr).map(from_serde)
}

/// `<serde_json::Value as PartialEq>::eq`.
#[verifier::external_body]
pub(crate) fn json_equal(a: &JsonValue, b: &JsonValue) -> (r: bool)
    ensures
        r == json_same(model(*a), model(*b)),
{
    to_serde(a) == to_serde(b)
}

impl JsonValue {
    /// The text of a string value.
    pub fn as_str(&self) -> (r: Option<&String>)
        ensures
            match r {
                Some(s) => text_of(*self) == Some(s@),
                None => text_of(*self) is None,
            },
    {
        match self {
            JsonValue::String(s) => Some(s),
            _ => None,
        }
    }

    /// The value of a boolean.
    pub fn as_bool(&self) -> (r: Option<bool>)
        ensures
            r == bool_of(*self),
    {
        match self {
            JsonValue::Bool(b) => Some(*b),
            _ => None,
        }
    }

    /// The value of a non-negative integer.
    pub fn as_u64(&self) -> (r: Option<u64>)
        ensures
            r == u64_of(*self),
    {
        match self {
            JsonValue::Number(JsonNumber::PosInt(n)) => Some(*n),
            _ => None,
        }
    }

    /// The elements of an array.
    pub fn as_array(&self) -> (r: Option<&Vec<JsonValue>>)
        ensures
            match r {
                Some(a) => *self == JsonValue::Array(*a),
                None => !(*self is Array),
            },
    {
        match self {
            JsonValue::Array(a) => Some(a),
            _ => None,
        }
    }

    pub fn is_object(&self) -> (b: bool)
        ensures
            b == (*self is Object),
    {
        matches!(self, JsonValue::Object(_))
    }

    pub fn is_array(&self) -> (b: bool)
        ensures
            b == (*self is Array),
    {
        matches!(self, JsonValue::Array(_))
    }

    /// The member of an object named `key` (the first, should several share it).
    pub fn get(&self, key: &str) -> (r: Option<&JsonValue>)
        ensures
            match r {
                Some(v) => member(*self, key@) == Some(*v),
                None => member(*self, key@) is None,
            },
    {
        match self {
            JsonValue::Object(members) => {
                let mut i: usize = 0;
                while i < members.len()
                    invariant
                        *self == JsonValue::Object(*members),
                        i <= members@.len(),
                        forall|j: int| 0 <= j < i ==> members@[j].0@ != key@,
                    decreases members@.len() - i,
                {
                    if str_eq(members[i].0.as_str(), key) {
                        proof {
                            let ms = members@;
                            let k = key@;
                            assert(ms[i as int].0@ == k && forall|j: int| 0 <= j < i ==> ms[j].0@ != k);
                            assert(exists|x: int| 0 <= x < ms.len() && ms[x].0@ == k
                                && forall|j: int| 0 <= j < x ==> ms[j].0@ != k);
                            let p = member_position(ms, k);
                            assert(p is Some);
                            let q = p->0;
                            assert(0 <= q < ms.len() && ms[q].0@ == k && forall|j: int| 0 <= j < q ==> ms[j].0@ != k);
                            assert(q == i as int) by {
                                if q < i {
                                } else if q > i {
                                    assert(members@[i as int].0@ == key@);
                                }
                            }
                            assert(member_position(members@, key@) == Some(i as int));
                            assert(member(*self, key@) == Some(members@[i as int].1));
                        }
                        return Some(&members[i].1);
                    }
                    i = i + 1;
                }
                None
            },
            _ => None,
        }
    }
}

/// The display text of a number, as `serde_json::Number` writes it for
/// integers and as held for floating-point numbers.
pub fn number_string(n: &JsonNumber) -> (s: String)
    ensures
        s@ == number_text(*n),
{
    match n {
        JsonNumber::PosInt(u) => decimal_string(*u),
        JsonNumber::NegInt(i) => {
            if *i < 0 {
                let magnitude: u64 = if *i == i64::MIN { 9223372036854775808u64 } else { (-*i) as u64 };
                join("-", decimal_string(magnitude).as_str())
            } else {
                decimal_string(*i as u64)
            }
        },
        JsonNumber::Float(t) => t.clone(),
    }
}

} // verus!

verus! {

/// The mathematical value of a JSON number.
pub enum NumberModel {
    PosInt(u64),
    NegInt(i64),
    Float(Seq<char>),
}

/// The mathematical value of a JSON value: what two copies share.
pub enum JsonModel {
    Null,
    Bool(bool),
    Number(NumberModel),
    String(Seq<char>),
    Array(Seq<JsonModel>),
    Object(Seq<(Seq<char>, JsonModel)>),
}

pub open spec fn number_model(n: JsonNumber) -> NumberModel {
    match n {
        JsonNumber::PosInt(u) => NumberModel::PosInt(u),
        JsonNumber::NegInt(i) => NumberModel::NegInt(i),
        JsonNumber::Float(t) => NumberModel::Float(t@),
    }
}

/// The mathematical value of a JSON value.
pub open spec fn model(v: JsonValue) -> JsonModel
    decreases v, 1int,
{
    match v {
        JsonValue::Null => JsonModel::Null,
        JsonValue::Bool(b) => JsonModel::Bool(b),
        JsonValue::Number(n) => JsonModel::Number(number_model(n)),
        JsonValue::String(s) => JsonModel::String(s@),
        JsonValue::Array(a) => JsonModel::Array(models(a@)),
        JsonValue::Object(m) => JsonModel::Object(member_models(m@)),
    }
}

/// The mathematical values of a sequence of JSON values.
pub open spec fn models(s: Seq<JsonValue>) -> Seq<JsonModel>
    decreases s, 0int,
{
    if s.len() == 0 {
        Seq::empty()
    } else {
        models(s.drop_last()).push(model(s.last()))
    }
}

/// The mathematical values of the members of an object.
pub open spec fn member_models(s: Seq<(String, JsonValue)>) -> Seq<(Seq<char>, JsonModel)>
    decreases s, 0int,
{
    if s.len() == 0 {
        Seq::empty()
    } else {
        member_models(s.drop_last()).push((s.last().0@, model(s.last().1)))
    }
}

} // verus!

verus! {

/// The model of an element is the element of the models.
pub proof fn lemma_models_index(s: Seq<JsonValue>, i: int)
    requires
        0 <= i < s.len(),
    ensures
        models(s).len() == s.len(),
        models(s)[i] == model(s[i]),
    decreases s.len(),
{
    lemma_models_len(s);
    if i < s.len() - 1 {
        lemma_models_index(s.drop_last(), i);
    }
}

/// There are as many models as values.
pub proof fn lemma_models_len(s: Seq<JsonValue>)
    ensures
        models(s).len() == s.len(),
    decreases s.len(),
{
    if s.len() > 0 {
        lemma_models_len(s.drop_last());
    }
}

/// The values of a prefix one longer.
proof fn lemma_models_prefix(s: Seq<JsonValue>, i: int)
    requires
        0 <= i < s.len(),
    ensures
        models(s.subrange(0, i + 1)) == models(s.subrange(0, i)).push(model(s[i])),
{
    assert(s.subrange(0, i + 1).drop_last() =~= s.subrange(0, i));
}

/// The members of a prefix one longer.
proof fn lemma_member_models_prefix(s: Seq<(String, JsonValue)>, i: int)
    requires
        0 <= i < s.len(),
    ensures
        member_models(s.subrange(0, i + 1)) == member_models(s.subrange(0, i)).push((s[i].0@, model(s[i].1))),
{
    assert(s.subrange(0, i + 1).drop_last() =~= s.subrange(0, i));
}

impl JsonNumber {
    /// A copy of the number.
    pub fn duplicate(&self) -> (r: JsonNumber)
        ensures
            number_model(r) == number_model(*self),
    {
        match self {
            JsonNumber::PosInt(u) => JsonNumber::PosInt(*u),
            JsonNumber::NegInt(i) => JsonNumber::NegInt(*i),
            JsonNumber::Float(t) => JsonNumber::Float(t.clone()),
        }
    }
}

impl JsonValue {
    /// A copy of the value.
    pub fn duplicate(&self) -> (r: JsonValue)
        ensures
            model(r) == model(*self),
        decreases *self, 1int,
    {
        match self {
            JsonValue::Null => JsonValue::Null,
            JsonValue::Bool(b) => JsonValue::Bool(*b),
            JsonValue::Number(n) => JsonValue::Number(n.duplicate()),
            JsonValue::String(s) => JsonValue::String(s.clone()),
            JsonValue::Array(a) => JsonValue::Array(duplicate_all(a)),
            JsonValue::Object(m) => JsonValue::Object(duplicate_members(m)),
        }
    }
}

/// Copies of a list of values.
pub fn duplicate_all(a: &Vec<JsonValue>) -> (r: Vec<JsonValue>)
    ensures
        models(r@) == models(a@),
    decreases *a, 0int,
{
    let mut r: Vec<JsonValue> = Vec::new();
    let mut i: usize = 0;
    while i < a.len()
        invariant
            i <= a@.len(),
            models(r@) == models(a@.subrange(0, i as int)),
        decreases a@.len() - i,
    {
        proof {
            lemma_models_prefix(a@, i as int);
            assert(decreases_to!(*a => a@[i as int]));
        }
        let x = a[i].duplicate();
        let ghost before = r@;
        r.push(x);
        proof {
            assert(r@.drop_last() =~= before);
        }
        i = i + 1;
    }
    proof {
        assert(a@.subrange(0, a@.len() as int) =~= a@);
    }
    r
}

/// Copies of the members of an object.
pub fn duplicate_members(m: &Vec<(String, JsonValue)>) -> (r: Vec<(String, JsonValue)>)
    ensures
        member_models(r@) == member_models(m@),
    decreases *m, 0int,
{
    let mut r: Vec<(String, JsonValue)> = Vec::new();
    let mut i: usize = 0;
    while i < m.len()
        invariant
            i <= m@.len(),
            member_models(r@) == member_models(m@.subrange(0, i as int)),
        decreases m@.len() - i,
    {
        proof {
            lemma_member_models_prefix(m@, i as int);
            assert(decreases_to!(*m => m@[i as int].1));
        }
        let x = m[i].1.duplicate();
        let ghost before = r@;
        r.push((m[i].0.clone(), x));
        proof {
            assert(r@.drop_last() =~= before);
        }
        i = i + 1;
    }
    proof {
        assert(m@.subrange(0, m@.len() as int) =~= m@);
    }
    r
}

/// There are as many member models as members.
pub proof fn lemma_member_models_len(s: Seq<(String, JsonValue)>)
    ensures
        member_models(s).len() == s.len(),
    decreases s.len(),
{
    if s.len() > 0 {
        lemma_member_models_len(s.drop_last());
    }
}

/// The model of a member is the member of the models.
pub proof fn lemma_member_models_index(s: Seq<(String, JsonValue)>, i: int)
    requires
        0 <= i < s.len(),
    ensures
        member_models(s).len() == s.len(),
        member_models(s)[i] == (s[i].0@, model(s[i].1)),
    decreases s.len(),
{
    lemma_member_models_len(s);
    if i < s.len() - 1 {
        lemma_member_models_index(s.drop_last(), i);
    }
}

/// Replacing a member replaces its model.
pub proof fn lemma_member_models_update(s: Seq<(String, JsonValue)>, i: int, x: (String, JsonValue))
    requires
        0 <= i < s.len(),
    ensures
        member_models(s.update(i, x)) == member_models(s).update(i, (x.0@, model(x.1))),
{
    lemma_member_models_len(s);
    lemma_member_models_len(s.update(i, x));
    assert forall|j: int| 0 <= j < s.len() implies member_models(s.update(i, x))[j] == member_models(s).update(
        i,
        (x.0@, model(x.1)),
    )[j] by {
        lemma_member_models_index(s, j);
        lemma_member_models_index(s.update(i, x), j);
    }
    assert(member_models(s.update(i, x)) =~= member_models(s).update(i, (x.0@, model(x.1))));
}

/// The position of the first member named `key`.
pub open spec fn key_position(ms: Seq<(Seq<char>, JsonModel)>, key: Seq<char>) -> Option<int> {
    if exists|i: int| 0 <= i < ms.len() && ms[i].0 == key {
        Some(choose|i: int| 0 <= i < ms.len() && ms[i].0 == key && forall|j: int| 0 <= j < i ==> ms[j].0 != key)
    } else {
        None
    }
}

/// The first member of an object value named `key`.
pub open spec fn model_member(m: JsonModel, key: Seq<char>) -> Option<JsonModel> {
    match m {
        JsonModel::Object(ms) => match key_position(ms, key) {
            Some(i) => Some(ms[i].1),
            None => None,
        },
        _ => None,
    }
}

pub proof fn lemma_first_position(ms: Seq<(Seq<char>, JsonModel)>, key: Seq<char>, i: int)
    requires
        0 <= i < ms.len(),
        ms[i].0 == key,
        forall|j: int| 0 <= j < i ==> ms[j].0 != key,
    ensures
        key_position(ms, key) == Some(i),
{
    let c = choose|c: int| 0 <= c < ms.len() && ms[c].0 == key && forall|j: int| 0 <= j < c ==> ms[j].0 != key;
    assert(0 <= c < ms.len() && ms[c].0 == key && forall|j: int| 0 <= j < c ==> ms[j].0 != key);
    if c < i {
        assert(ms[c].0 != key);
    } else if c > i {
        assert(ms[i].0 != key);
    }
}

/// The names of the member models are the names of the members.
proof fn lemma_member_model_names(ms: Seq<(String, JsonValue)>)
    ensures
        member_models(ms).len() == ms.len(),
        forall|j: int| 0 <= j < ms.len() ==> (#[trigger] member_models(ms)[j]).0 == ms[j].0@,
    decreases ms.len(),
{
    if ms.len() > 0 {
        lemma_member_model_names(ms.drop_last());
        assert forall|j: int| 0 <= j < ms.len() implies (#[trigger] member_models(ms)[j]).0 == ms[j].0@ by {
            if j < ms.len() - 1 {
                assert(ms.drop_last()[j] == ms[j]);
            }
        }
    }
}

/// Where some member is named `key`, a first one is.
proof fn lemma_first_named(ms: Seq<(String, JsonValue)>, key: Seq<char>, i: int)
    requires
        0 <= i < ms.len(),
        ms[i].0@ == key,
    ensures
        exists|x: int| 0 <= x < ms.len() && ms[x].0@ == key && forall|j: int| 0 <= j < x ==> ms[j].0@ != key,
    decreases i,
{
    if exists|j: int| 0 <= j < i && ms[j].0@ == key {
        let j = choose|j: int| 0 <= j < i && ms[j].0@ == key;
        lemma_first_named(ms, key, j);
    } else {
        assert(forall|j: int| 0 <= j < i ==> ms[j].0@ != key);
    }
}

/// The first member named `key` sits at the same position among the
/// members and among their models.
#[verifier::rlimit(30)]
proof fn lemma_position_models(ms: Seq<(String, JsonValue)>, key: Seq<char>)
    ensures
        key_position(member_models(ms), key) == member_position(ms, key),
        member_position(ms, key) matches Some(p) ==> 0 <= p < ms.len(),
{
    let mm = member_models(ms);
    lemma_member_model_names(ms);
    if exists|i: int| 0 <= i < ms.len() && ms[i].0@ == key {
        let w = choose|i: int| 0 <= i < ms.len() && ms[i].0@ == key;
        lemma_first_named(ms, key, w);
        let p = member_position(ms, key)->0;
        assert(0 <= p < ms.len() && ms[p].0@ == key && forall|j: int| 0 <= j < p ==> ms[j].0@ != key);
        assert(mm[p].0 == key);
        assert forall|j: int| 0 <= j < p implies mm[j].0 != key by {
            assert(ms[j].0@ != key);
        }
        lemma_first_position(mm, key, p);
    } else {
        assert forall|j: int| 0 <= j < mm.len() implies mm[j].0 != key by {
            assert(!(ms[j].0@ == key));
        }
    }
}

/// A member of a value, taken as a model, is the member of its model.
pub proof fn lemma_member_model(v: JsonValue, key: Seq<char>)
    ensures
        opt_model(member(v, key)) == model_member(model(v), key),
{
    if let JsonValue::Object(members) = v {
        lemma_position_models(members@, key);
        if let Some(p) = member_position(members@, key) {
            lemma_member_models_index(members@, p);
        }
    }
}

/// The text of a string value.
pub open spec fn model_text(m: JsonModel) -> Option<Seq<char>> {
    match m {
        JsonModel::String(s) => Some(s),
        _ => None,
    }
}

/// The value of a non-negative integer.
pub open spec fn model_u64(m: JsonModel) -> Option<u64> {
    match m {
        JsonModel::Number(NumberModel::PosInt(n)) => Some(n),
        _ => None,
    }
}

/// The value of a boolean.
pub open spec fn model_bool(m: JsonModel) -> Option<bool> {
    match m {
        JsonModel::Bool(b) => Some(b),
        _ => None,
    }
}

} // verus!
