//! JSON documents.
//!
//! [`Value`] is the executable document, [`Json`] the mathematical one that contracts
//! speak of. Reading and writing JSON text is the work of `serde_json`.

use serde_json::Value as SerdeValue;
use vstd::prelude::*;

use crate::text::same_text;

verus! {

// ---------------------------------------------------------------------------
// The mathematical document
// ---------------------------------------------------------------------------

/// A JSON number.
pub enum JsonNumber {
    /// An integer from zero to `u64::MAX`.
    PosInt(u64),
    /// A negative integer down to `i64::MIN`.
    NegInt(i64),
    /// Any other number, by its decimal text.
    Float(Seq<char>),
}

/// A JSON document.
pub enum Json {
    Null,
    Bool(bool),
    Number(JsonNumber),
    String(Seq<char>),
    Array(Seq<Json>),
    Object(Map<Seq<char>, Json>),
}

impl Json {
    /// The member `key` of an object; nothing for any other document.
    pub open spec fn member(self, key: Seq<char>) -> Option<Json> {
        match self {
            Json::Object(members) => if members.dom().contains(key) {
                Some(members[key])
            } else {
                None
            },
            _ => None,
        }
    }

    /// The member `key`, with JSON null where there is none.
    pub open spec fn member_or_null(self, key: Seq<char>) -> Json {
        match self.member(key) {
            Some(j) => j,
            None => Json::Null,
        }
    }

    /// The text of a string.
    pub open spec fn text(self) -> Option<Seq<char>> {
        match self {
            Json::String(s) => Some(s),
            _ => None,
        }
    }

    /// The elements of an array.
    pub open spec fn elements(self) -> Option<Seq<Json>> {
        match self {
            Json::Array(items) => Some(items),
            _ => None,
        }
    }

    /// The value of a non-negative integer.
    pub open spec fn unsigned(self) -> Option<u64> {
        match self {
            Json::Number(JsonNumber::PosInt(n)) => Some(n),
            _ => None,
        }
    }

    /// The text of the string member `key`.
    pub open spec fn member_text(self, key: Seq<char>) -> Option<Seq<char>> {
        match self.member(key) {
            Some(j) => j.text(),
            None => None,
        }
    }

    /// The elements of the array member `key`.
    pub open spec fn member_elements(self, key: Seq<char>) -> Option<Seq<Json>> {
        match self.member(key) {
            Some(j) => j.elements(),
            None => None,
        }
    }
}

// ---------------------------------------------------------------------------
// The executable document
// ---------------------------------------------------------------------------

/// The decimal text of a number that is no 64-bit integer. Only reading a JSON text gives
/// one, so it always is the text of a number.
#[derive(Debug)]
pub struct Decimal {
    text: String,
}

impl View for Decimal {
    type V = Seq<char>;

    closed spec fn view(&self) -> Seq<char> {
        self.text@
    }
}

impl Clone for Decimal {
    fn clone(&self) -> (r: Decimal)
        ensures
            r@ == self@,
    {
        Decimal { text: self.text.clone() }
    }
}

impl Decimal {
    /// The text.
    pub fn as_str(&self) -> (r: &str)
        ensures
            r@ == self@,
    {
        self.text.as_str()
    }
}

/// A JSON number.
#[derive(Debug)]
pub enum Number {
    /// An integer from zero to `u64::MAX`.
    PosInt(u64),
    /// A negative integer down to `i64::MIN`.
    NegInt(i64),
    /// Any other number, by its decimal text.
    Float(Decimal),
}

/// A JSON document.
#[derive(Debug)]
pub enum Value {
    Null,
    Bool(bool),
    Number(Number),
    String(String),
    Array(Vec<Value>),
    Object(Object),
}

/// The members of a JSON object. No key occurs twice.
#[derive(Debug)]
pub struct Object {
    entries: Vec<(String, Value)>,
}

spec fn keys_distinct(entries: Seq<(String, Value)>) -> bool {
    forall|i: int, j: int|
        0 <= i < j < entries.len() ==> (#[trigger] entries[i]).0@ != (#[trigger] entries[j]).0@
}

impl View for Number {
    type V = JsonNumber;

    open spec fn view(&self) -> JsonNumber {
        match self {
            Number::PosInt(n) => JsonNumber::PosInt(*n),
            Number::NegInt(n) => JsonNumber::NegInt(*n),
            Number::Float(decimal) => JsonNumber::Float(decimal@),
        }
    }
}

spec fn value_view(v: Value) -> Json
    decreases v,
{
    match v {
        Value::Null => Json::Null,
        Value::Bool(b) => Json::Bool(b),
        Value::Number(n) => Json::Number(n@),
        Value::String(s) => Json::String(s@),
        Value::Array(items) => Json::Array(
            Seq::new(
                items@.len(),
                |i: int|
                    if 0 <= i < items@.len() {
                        value_view(items@[i])
                    } else {
                        Json::Null
                    },
            ),
        ),
        Value::Object(object) => Json::Object(entries_view(object.entries@)),
    }
}

spec fn entries_view(entries: Seq<(String, Value)>) -> Map<Seq<char>, Json>
    decreases entries,
{
    if entries.len() == 0 {
        Map::empty()
    } else {
        entries_view(entries.drop_last()).insert(entries.last().0@, value_view(entries.last().1))
    }
}

impl View for Value {
    type V = Json;

    closed spec fn view(&self) -> Json {
        value_view(*self)
    }
}

impl View for Object {
    type V = Map<Seq<char>, Json>;

    closed spec fn view(&self) -> Map<Seq<char>, Json> {
        entries_view(self.entries@)
    }
}

/// The documents that a sequence of values stands for.
pub open spec fn documents(values: Seq<Value>) -> Seq<Json> {
    values.map_values(|v: Value| v@)
}

/// The view of what an option holds.
pub open spec fn view_of<T: View>(o: Option<T>) -> Option<T::V> {
    match o {
        Some(t) => Some(t@),
        None => None,
    }
}

// ---------------------------------------------------------------------------
// Objects
// ---------------------------------------------------------------------------

/// The members are exactly the entries, when no key occurs twice.
proof fn lemma_entries(entries: Seq<(String, Value)>, key: Seq<char>)
    ensures
        entries_view(entries).dom().contains(key) <==> exists|i: int|
            0 <= i < entries.len() && (#[trigger] entries[i]).0@ == key,
        keys_distinct(entries) ==> forall|i: int|
            0 <= i < entries.len() && (#[trigger] entries[i]).0@ == key ==> entries_view(
                entries,
            )[key] == entries[i].1@,
    decreases entries.len(),
{
    if entries.len() > 0 {
        let rest = entries.drop_last();
        lemma_entries(rest, key);
        if entries.last().0@ == key {
            assert(entries[entries.len() - 1].0@ == key);
        }
        assert(forall|i: int| 0 <= i < rest.len() ==> rest[i] == #[trigger] entries[i]);
        assert(keys_distinct(entries) ==> keys_distinct(rest));
        if exists|i: int| 0 <= i < rest.len() && (#[trigger] rest[i]).0@ == key {
            let i = choose|i: int| 0 <= i < rest.len() && (#[trigger] rest[i]).0@ == key;
            assert(entries[i].0@ == key);
        }
    }
}

/// Replacing the value of one entry replaces the value of its key.
proof fn lemma_entries_update(entries: Seq<(String, Value)>, at: int, value: Value, key: String)
    requires
        0 <= at < entries.len(),
        keys_distinct(entries),
        key@ == entries[at].0@,
    ensures
        keys_distinct(entries.update(at, (key, value))),
        entries_view(entries.update(at, (key, value))) =~= entries_view(entries).insert(
            key@,
            value@,
        ),
    decreases entries.len(),
{
    let after = entries.update(at, (key, value));
    let rest = entries.drop_last();
    assert(keys_distinct(rest));
    if at == entries.len() - 1 {
        assert(after.drop_last() =~= rest);
    } else {
        assert(after.drop_last() =~= rest.update(at, (key, value)));
        lemma_entries_update(rest, at, value, key);
        assert(entries[entries.len() - 1].0@ != entries[at].0@);
    }
}

impl Object {
    #[verifier::type_invariant]
    spec fn distinct(self) -> bool {
        keys_distinct(self.entries@)
    }

    /// An object without members.
    pub fn new() -> (r: Object)
        ensures
            r@ == Map::<Seq<char>, Json>::empty(),
    {
        Object { entries: Vec::new() }
    }

    fn position(&self, key: &str) -> (r: Option<usize>)
        ensures
            match r {
                Some(i) => i < self.entries@.len() && self.entries@[i as int].0@ == key@,
                None => forall|i: int|
                    0 <= i < self.entries@.len() ==> (#[trigger] self.entries@[i]).0@ != key@,
            },
    {
        let mut i: usize = 0;
        while i < self.entries.len()
            invariant
                i <= self.entries@.len(),
                forall|j: int| 0 <= j < i ==> (#[trigger] self.entries@[j]).0@ != key@,
            decreases self.entries@.len() - i,
        {
            if same_text(self.entries[i].0.as_str(), key) {
                return Some(i);
            }
            i += 1;
        }
        None
    }

    /// The value of the member `key`.
    pub fn get(&self, key: &str) -> (r: Option<&Value>)
        ensures
            view_of(r) == (if self@.dom().contains(key@) {
                Some(self@[key@])
            } else {
                None
            }),
    {
        proof {
            use_type_invariant(self);
            lemma_entries(self.entries@, key@);
        }
        match self.position(key) {
            Some(i) => Some(&self.entries[i].1),
            None => None,
        }
    }

    /// Sets the member `key` to `value`.
    pub fn insert(&mut self, key: &str, value: Value)
        ensures
            final(self)@ == old(self)@.insert(key@, value@),
    {
        proof {
            use_type_invariant(&*self);
        }
        let at = self.position(key);
        let mut entries: Vec<(String, Value)> = Vec::new();
        std::mem::swap(&mut entries, &mut self.entries);
        let ghost before = entries@;
        match at {
            Some(i) => {
                let entry = (key.to_owned(), value);
                proof {
                    lemma_entries_update(before, i as int, value, entry.0);
                }
                entries.set(i, entry);
            },
            None => {
                entries.push((key.to_owned(), value));
                assert(entries@.drop_last() =~= before);
            },
        }
        self.entries = entries;
    }

    /// This object with the member `key` set to `value`.
    pub fn with(self, key: &str, value: Value) -> (r: Object)
        ensures
            r@ == self@.insert(key@, value@),
    {
        let mut object = self;
        object.insert(key, value);
        object
    }
}

// ---------------------------------------------------------------------------
// Values
// ---------------------------------------------------------------------------

impl Clone for Number {
    fn clone(&self) -> (r: Number)
        ensures
            r@ == self@,
    {
        match self {
            Number::PosInt(n) => Number::PosInt(*n),
            Number::NegInt(n) => Number::NegInt(*n),
            Number::Float(decimal) => Number::Float(decimal.clone()),
        }
    }
}

impl Clone for Value {
    fn clone(&self) -> (r: Value)
        ensures
            r@ == self@,
        decreases self,
    {
        match self {
            Value::Null => Value::Null,
            Value::Bool(b) => Value::Bool(*b),
            Value::Number(n) => Value::Number(n.clone()),
            Value::String(s) => Value::String(s.clone()),
            Value::Array(items) => {
                let mut copy: Vec<Value> = Vec::new();
                let mut i: usize = 0;
                while i < items.len()
                    invariant
                        i <= items@.len(),
                        copy@.len() == i,
                        *self == Value::Array(*items),
                        forall|j: int| 0 <= j < i ==> (#[trigger] copy@[j])@ == items@[j]@,
                    decreases items@.len() - i,
                {
                    assert(decreases_to!(*self => self->Array_0));
                    assert(decreases_to!(self->Array_0 => self->Array_0@));
                    assert(decreases_to!(self->Array_0@ => self->Array_0@[i as int]));
                    copy.push(items[i].clone());
                    i += 1;
                }
                let r = Value::Array(copy);
                assert(r@->Array_0 =~= self@->Array_0);
                r
            },
            Value::Object(object) => {
                proof {
                    use_type_invariant(object);
                }
                let mut copy: Vec<(String, Value)> = Vec::new();
                let mut i: usize = 0;
                while i < object.entries.len()
                    invariant
                        i <= object.entries@.len(),
                        copy@.len() == i,
                        *self == Value::Object(*object),
                        entries_view(copy@) == entries_view(object.entries@.take(i as int)),
                        forall|j: int|
                            0 <= j < i ==> (#[trigger] copy@[j]).0@ == object.entries@[j].0@,
                    decreases object.entries@.len() - i,
                {
                    assert(decreases_to!(*self => self->Object_0));
                    assert(decreases_to!(self->Object_0 => self->Object_0.entries));
                    assert(decreases_to!(self->Object_0.entries => self->Object_0.entries@));
                    assert(decreases_to!(
                        self->Object_0.entries@ => self->Object_0.entries@[i as int]));
                    assert(decreases_to!(
                        self->Object_0.entries@[i as int] => self->Object_0.entries@[i as int].1));
                    let ghost before = copy@;
                    let key = object.entries[i].0.clone();
                    let value = object.entries[i].1.clone();
                    copy.push((key, value));
                    i += 1;
                    assert(copy@.drop_last() =~= before);
                    assert(object.entries@.take(i as int).drop_last() =~= object.entries@.take(
                        i - 1,
                    ));
                }
                assert(object.entries@.take(i as int) =~= object.entries@);
                Value::Object(Object { entries: copy })
            },
        }
    }
}

impl Value {
    /// A string.
    pub fn string(text: &str) -> (r: Value)
        ensures
            r@ == Json::String(text@),
    {
        Value::String(text.to_owned())
    }

    /// A number.
    pub fn number(n: Number) -> (r: Value)
        ensures
            r@ == Json::Number(n@),
    {
        Value::Number(n)
    }

    /// A boolean.
    pub fn boolean(b: bool) -> (r: Value)
        ensures
            r@ == Json::Bool(b),
    {
        Value::Bool(b)
    }

    /// JSON null.
    pub fn null() -> (r: Value)
        ensures
            r@ == Json::Null,
    {
        Value::Null
    }

    /// An array.
    pub fn array(items: Vec<Value>) -> (r: Value)
        ensures
            r@ == Json::Array(documents(items@)),
    {
        let r = Value::Array(items);
        assert(r@->Array_0 =~= documents(items@));
        r
    }

    /// An object.
    pub fn object(members: Object) -> (r: Value)
        ensures
            r@ == Json::Object(members@),
    {
        Value::Object(members)
    }

    /// The member `key` of an object.
    pub fn get(&self, key: &str) -> (r: Option<&Value>)
        ensures
            view_of(r) == self@.member(key@),
    {
        match self {
            Value::Object(members) => members.get(key),
            _ => None,
        }
    }

    /// The text of a string.
    pub fn as_str(&self) -> (r: Option<&str>)
        ensures
            view_of(r) == self@.text(),
    {
        match self {
            Value::String(s) => Some(s.as_str()),
            _ => None,
        }
    }

    /// The elements of an array.
    pub fn as_array(&self) -> (r: Option<&Vec<Value>>)
        ensures
            match r {
                Some(items) => self@.elements() == Some(documents(items@)),
                None => self@.elements() is None,
            },
    {
        match self {
            Value::Array(items) => {
                assert(self@->Array_0 =~= documents(items@));
                Some(items)
            },
            _ => None,
        }
    }

    /// The value of a non-negative integer.
    pub fn as_u64(&self) -> (r: Option<u64>)
        ensures
            r == self@.unsigned(),
    {
        match self {
            Value::Number(Number::PosInt(n)) => Some(*n),
            _ => None,
        }
    }

    /// Whether this is JSON null.
    pub fn is_null(&self) -> (r: bool)
        ensures
            r == (self@ is Null),
    {
        match self {
            Value::Null => true,
            _ => false,
        }
    }

    /// Whether this is an object.
    pub fn is_object(&self) -> (r: bool)
        ensures
            r == (self@ is Object),
    {
        match self {
            Value::Object(_) => true,
            _ => false,
        }
    }

    /// The text of the string member `key`.
    pub fn get_str(&self, key: &str) -> (r: Option<&str>)
        ensures
            view_of(r) == self@.member_text(key@),
    {
        match self.get(key) {
            Some(v) => v.as_str(),
            None => None,
        }
    }

    /// The elements of the array member `key`.
    pub fn get_array(&self, key: &str) -> (r: Option<&Vec<Value>>)
        ensures
            match r {
                Some(items) => self@.member_elements(key@) == Some(documents(items@)),
                None => self@.member_elements(key@) is None,
            },
    {
        match self.get(key) {
            Some(v) => v.as_array(),
            None => None,
        }
    }

    /// This object with the member `key` set to `value`.
    pub fn with_member(self, key: &str, value: Value) -> (r: Value)
        requires
            self@ is Object,
        ensures
            r@ == Json::Object(self@->Object_0.insert(key@, value@)),
    {
        match self {
            Value::Object(members) => Value::Object(members.with(key, value)),
            other => other,
        }
    }

    /// A copy of the member `key`, with JSON null where there is none.
    pub fn get_or_null(&self, key: &str) -> (r: Value)
        ensures
            r@ == self@.member_or_null(key@),
    {
        match self.get(key) {
            Some(v) => v.clone(),
            None => Value::Null,
        }
    }
}

// ---------------------------------------------------------------------------
// Text
// ---------------------------------------------------------------------------

#[verifier::external_type_specification]
#[verifier::external_body]
pub struct ExSerdeValue(SerdeValue);

/// What `serde_json::from_str` reads from a text: the document, or the message of the
/// error that it reports.
pub uninterp spec fn json_of_text(text: Seq<char>) -> Result<Json, Seq<char>>;

/// The compact text that `serde_json` displays for a document.
pub uninterp spec fn text_of_json(document: Json) -> Seq<char>;

/// The document that a `serde_json::Value` holds, carried over variant by variant.
///
/// Nothing is promised of the result here: what a text is read as is the promise of
/// [`from_str`].
#[verifier::external_body]
fn from_serde(value: SerdeValue) -> Value {
    match value {
        SerdeValue::Null => Value::Null,
        SerdeValue::Bool(b) => Value::Bool(b),
        SerdeValue::Number(n) => Value::Number(match (n.as_u64(), n.as_i64()) {
            (Some(u), _) => Number::PosInt(u),
            (None, Some(i)) => Number::NegInt(i),
            (None, None) => Number::Float(Decimal { text: n.to_string() }),
        }),
        SerdeValue::String(s) => Value::String(s),
        SerdeValue::Array(v) => Value::Array(v.into_iter().map(from_serde).collect()),
        SerdeValue::Object(m) => Value::Object(
            Object { entries: m.into_iter().map(|(k, v)| (k, from_serde(v))).collect() },
        ),
    }
}

/// The `serde_json::Value` that holds a document, carried over variant by variant.
///
/// Nothing is promised of the result here: what text a document has is the promise of
/// [`to_text`].
#[verifier::external_body]
fn to_serde(value: &Value) -> SerdeValue {
    match value {
        Value::Null => SerdeValue::Null,
        Value::Bool(b) => (*b).into(),
        Value::Number(Number::PosInt(n)) => (*n).into(),
        Value::Number(Number::NegInt(n)) => (*n).into(),
        Value::Number(Number::Float(t)) => {
            t.text.parse().ok().and_then(serde_json::Number::from_f64).into()
        },
        Value::String(s) => s.as_str().into(),
        Value::Array(items) => items.iter().map(to_serde).collect(),
        Value::Object(o) => o.entries.iter().map(|(k, v)| (k.clone(), to_serde(v))).collect(),
    }
}

/// `serde_json::from_str`: the document that `text` holds, or the error's message. Both
/// depend on the text alone.
#[verifier::external_body]
fn from_str(text: &str) -> (r: Result<Value, String>)
    ensures
        match r {
            Ok(v) => json_of_text(text@) == Ok::<Json, Seq<char>>(v@),
            Err(message) => json_of_text(text@) == Err::<Json, Seq<char>>(message@),
        },
{
    serde_json::from_str(text).map(from_serde).map_err(|e| e.to_string())
}

/// The `Display` of `serde_json::Value`: the compact text of a document, which depends
/// on the document alone.
#[verifier::external_body]
fn to_text(value: &Value) -> (r: String)
    ensures
        r@ == text_of_json(value@),
{
    to_serde(value).to_string()
}

impl Value {
    /// Reads a JSON text. An error carries its message.
    pub fn parse(text: &str) -> (r: Result<Value, String>)
        ensures
            match r {
                Ok(v) => json_of_text(text@) == Ok::<Json, Seq<char>>(v@),
                Err(message) => json_of_text(text@) == Err::<Json, Seq<char>>(message@),
            },
    {
        from_str(text)
    }

    /// The compact JSON text of this document.
    pub fn render(&self) -> (r: String)
        ensures
            r@ == text_of_json(self@),
    {
        to_text(self)
    }
}

} // verus!
