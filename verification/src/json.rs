//! JSON values as the parsers of this crate read them.
use crate::text;
use crate::text::same;
use vstd::prelude::*;

verus! {

/// A JSON value. An object keeps its entries in order.
pub enum Json {
    Null,
    Bool(bool),
    Unsigned(u64),
    Signed(i64),
    /// A number that is no integer of 64 bits, in its JSON notation.
    Decimal(String),
    Text(String),
    Array(Vec<Json>),
    Object(Vec<(String, Json)>),
}

/// What a JSON value is.
#[verifier::ext_equal]
pub enum JsonView {
    Null,
    Bool(bool),
    Integer(int),
    Decimal(Seq<char>),
    Text(Seq<char>),
    Array(Seq<JsonView>),
    Object(Seq<(Seq<char>, JsonView)>),
}

impl Json {
    pub open spec fn view(&self) -> JsonView
        decreases self,
    {
        match self {
            Json::Null => JsonView::Null,
            Json::Bool(b) => JsonView::Bool(*b),
            Json::Unsigned(n) => JsonView::Integer(*n as int),
            Json::Signed(n) => JsonView::Integer(*n as int),
            Json::Decimal(s) => JsonView::Decimal(s@),
            Json::Text(s) => JsonView::Text(s@),
            Json::Array(items) => JsonView::Array(
                Seq::new(
                    items@.len(),
                    |i: int|
                        if 0 <= i < items@.len() {
                            items@[i].view()
                        } else {
                            JsonView::Null
                        },
                ),
            ),
            Json::Object(entries) => JsonView::Object(
                Seq::new(
                    entries@.len(),
                    |i: int|
                        if 0 <= i < entries@.len() {
                            (entries@[i].0@, entries@[i].1.view())
                        } else {
                            (Seq::empty(), JsonView::Null)
                        },
                ),
            ),
        }
    }
}

/// The views of a list of values.
pub open spec fn values(v: Seq<Json>) -> Seq<JsonView> {
    Seq::new(v.len(), |i: int| v[i]@)
}

/// The views of a list of object entries.
pub open spec fn entries(v: Seq<(String, Json)>) -> Seq<(Seq<char>, JsonView)> {
    Seq::new(v.len(), |i: int| (v[i].0@, v[i].1@))
}

pub proof fn lemma_array_view(v: Vec<Json>)
    ensures
        Json::Array(v)@ == JsonView::Array(values(v@)),
{
    assert(Json::Array(v)@->Array_0 =~= values(v@));
}

pub proof fn lemma_object_view(v: Vec<(String, Json)>)
    ensures
        Json::Object(v)@ == JsonView::Object(entries(v@)),
{
    assert(Json::Object(v)@->Object_0 =~= entries(v@));
}

/// The value of the first entry with the key `key`.
pub open spec fn lookup(e: Seq<(Seq<char>, JsonView)>, key: Seq<char>) -> Option<JsonView>
    decreases e.len(),
{
    if e.len() == 0 {
        None
    } else if e[0].0 == key {
        Some(e[0].1)
    } else {
        lookup(e.skip(1), key)
    }
}

/// The entries with `value` under `key`: in place of the first entry with that
/// key, or behind all others.
pub open spec fn with_entry(
    e: Seq<(Seq<char>, JsonView)>,
    key: Seq<char>,
    value: JsonView,
) -> Seq<(Seq<char>, JsonView)>
    decreases e.len(),
{
    if e.len() == 0 {
        seq![(key, value)]
    } else if e[0].0 == key {
        seq![(key, value)] + e.skip(1)
    } else {
        seq![e[0]] + with_entry(e.skip(1), key, value)
    }
}

impl JsonView {
    /// The value under `key`, where this is an object that has the key.
    pub open spec fn get(self, key: Seq<char>) -> Option<JsonView> {
        match self {
            JsonView::Object(e) => lookup(e, key),
            _ => None,
        }
    }

    pub open spec fn as_bool(self) -> Option<bool> {
        match self {
            JsonView::Bool(b) => Some(b),
            _ => None,
        }
    }

    pub open spec fn as_i64(self) -> Option<int> {
        match self {
            JsonView::Integer(n) => if i64::MIN <= n <= i64::MAX {
                Some(n)
            } else {
                None
            },
            _ => None,
        }
    }

    pub open spec fn as_u64(self) -> Option<int> {
        match self {
            JsonView::Integer(n) => if 0 <= n <= u64::MAX {
                Some(n)
            } else {
                None
            },
            _ => None,
        }
    }

    pub open spec fn as_str(self) -> Option<Seq<char>> {
        match self {
            JsonView::Text(s) => Some(s),
            _ => None,
        }
    }

    pub open spec fn as_array(self) -> Option<Seq<JsonView>> {
        match self {
            JsonView::Array(items) => Some(items),
            _ => None,
        }
    }

    pub open spec fn as_object(self) -> Option<Seq<(Seq<char>, JsonView)>> {
        match self {
            JsonView::Object(e) => Some(e),
            _ => None,
        }
    }

    /// The text under `key`.
    pub open spec fn str_at(self, key: Seq<char>) -> Option<Seq<char>> {
        match self.get(key) {
            Some(v) => v.as_str(),
            None => None,
        }
    }

    /// The integer under `key`.
    pub open spec fn i64_at(self, key: Seq<char>) -> Option<int> {
        match self.get(key) {
            Some(v) => v.as_i64(),
            None => None,
        }
    }

    /// The truth value under `key`.
    pub open spec fn bool_at(self, key: Seq<char>) -> Option<bool> {
        match self.get(key) {
            Some(v) => v.as_bool(),
            None => None,
        }
    }

    /// The items of the array under `key`.
    pub open spec fn array_at(self, key: Seq<char>) -> Option<Seq<JsonView>> {
        match self.get(key) {
            Some(v) => v.as_array(),
            None => None,
        }
    }
}

/// The value of the first entry with the key `key`.
pub fn find_entry<'a>(v: &'a Vec<(String, Json)>, key: &str) -> (r: Option<&'a Json>)
    ensures
        (match r {
            Some(j) => lookup(entries(v@), key@) == Some(j@),
            None => lookup(entries(v@), key@) is None,
        }),
{
    let mut i: usize = 0;
    assert(entries(v@).skip(0) =~= entries(v@));
    while i < v.len()
        invariant
            i <= v@.len(),
            lookup(entries(v@), key@) == lookup(entries(v@).skip(i as int), key@),
        decreases v@.len() - i,
    {
        assert(entries(v@).skip(i as int)[0] == entries(v@)[i as int]);
        if same(v[i].0.as_str(), key) {
            return Some(&v[i].1);
        }
        assert(entries(v@).skip(i as int).skip(1) =~= entries(v@).skip(i + 1));
        i += 1;
    }
    None
}

impl Json {
    /// The value under `key`, where this is an object that has the key.
    pub fn get(&self, key: &str) -> (r: Option<&Json>)
        ensures
            (match r {
                Some(j) => self@.get(key@) == Some(j@),
                None => self@.get(key@) is None,
            }),
    {
        match self {
            Json::Object(v) => {
                proof {
                    lemma_object_view(*v);
                }
                find_entry(v, key)
            },
            _ => None,
        }
    }

    pub fn as_bool(&self) -> (r: Option<bool>)
        ensures
            r == self@.as_bool(),
    {
        match self {
            Json::Bool(b) => Some(*b),
            _ => None,
        }
    }

    pub fn as_i64(&self) -> (r: Option<i64>)
        ensures
            (match r {
                Some(n) => self@.as_i64() == Some(n as int),
                None => self@.as_i64() is None,
            }),
    {
        match self {
            Json::Unsigned(n) => if *n <= i64::MAX as u64 {
                Some(*n as i64)
            } else {
                None
            },
            Json::Signed(n) => Some(*n),
            _ => None,
        }
    }

    pub fn as_u64(&self) -> (r: Option<u64>)
        ensures
            (match r {
                Some(n) => self@.as_u64() == Some(n as int),
                None => self@.as_u64() is None,
            }),
    {
        match self {
            Json::Unsigned(n) => Some(*n),
            Json::Signed(n) => if *n >= 0 {
                Some(*n as u64)
            } else {
                None
            },
            _ => None,
        }
    }

    pub fn as_str(&self) -> (r: Option<&str>)
        ensures
            (match r {
                Some(s) => self@.as_str() == Some(s@),
                None => self@.as_str() is None,
            }),
    {
        match self {
            Json::Text(s) => Some(s.as_str()),
            _ => None,
        }
    }

    pub fn as_array(&self) -> (r: Option<&Vec<Json>>)
        ensures
            (match r {
                Some(v) => self@.as_array() == Some(values(v@)) && *self == Json::Array(*v),
                None => self@.as_array() is None,
            }),
    {
        match self {
            Json::Array(v) => {
                proof {
                    lemma_array_view(*v);
                }
                Some(v)
            },
            _ => None,
        }
    }

    pub fn as_object(&self) -> (r: Option<&Vec<(String, Json)>>)
        ensures
            (match r {
                Some(v) => self@.as_object() == Some(entries(v@)) && *self == Json::Object(*v),
                None => self@.as_object() is None,
            }),
    {
        match self {
            Json::Object(v) => {
                proof {
                    lemma_object_view(*v);
                }
                Some(v)
            },
            _ => None,
        }
    }

    pub fn is_object(&self) -> (r: bool)
        ensures
            r == (self@ is Object),
    {
        match self {
            Json::Object(_) => true,
            _ => false,
        }
    }

    /// The text under `key`.
    pub fn str_at(&self, key: &str) -> (r: Option<&str>)
        ensures
            (match r {
                Some(s) => self@.str_at(key@) == Some(s@),
                None => self@.str_at(key@) is None,
            }),
    {
        match self.get(key) {
            Some(v) => v.as_str(),
            None => None,
        }
    }

    /// The integer under `key`.
    pub fn i64_at(&self, key: &str) -> (r: Option<i64>)
        ensures
            (match r {
                Some(n) => self@.i64_at(key@) == Some(n as int),
                None => self@.i64_at(key@) is None,
            }),
    {
        match self.get(key) {
            Some(v) => v.as_i64(),
            None => None,
        }
    }

    /// The truth value under `key`.
    pub fn bool_at(&self, key: &str) -> (r: Option<bool>)
        ensures
            r == self@.bool_at(key@),
    {
        match self.get(key) {
            Some(v) => v.as_bool(),
            None => None,
        }
    }

    /// The items of the array under `key`.
    pub fn array_at(&self, key: &str) -> (r: Option<&Vec<Json>>)
        ensures
            (match r {
                Some(v) => self@.array_at(key@) == Some(values(v@)),
                None => self@.array_at(key@) is None,
            }),
    {
        match self.get(key) {
            Some(v) => v.as_array(),
            None => None,
        }
    }

    /// A value of its own with the same contents.
    pub fn duplicate(&self) -> (r: Json)
        ensures
            r@ == self@,
        decreases self,
    {
        match self {
            Json::Null => Json::Null,
            Json::Bool(b) => Json::Bool(*b),
            Json::Unsigned(n) => Json::Unsigned(*n),
            Json::Signed(n) => Json::Signed(*n),
            Json::Decimal(s) => Json::Decimal(s.clone()),
            Json::Text(s) => Json::Text(s.clone()),
            Json::Array(v) => {
                let mut out: Vec<Json> = Vec::new();
                let mut i: usize = 0;
                while i < v.len()
                    invariant
                        i <= v@.len(),
                        values(out@) == values(v@).take(i as int),
                        *self == Json::Array(*v),
                    decreases v@.len() - i,
                {
                    assert(decreases_to!(*self => self->Array_0));
                    assert(decreases_to!(self->Array_0 => self->Array_0@[i as int]));
                    let item = v[i].duplicate();
                    assert(values(out@.push(item)) =~= values(out@).push(item@));
                    assert(values(v@).take(i + 1) =~= values(v@).take(i as int).push(item@));
                    out.push(item);
                    i += 1;
                }
                proof {
                    assert(values(v@).take(i as int) =~= values(v@));
                    lemma_array_view(*v);
                    lemma_array_view(out);
                }
                Json::Array(out)
            },
            Json::Object(v) => {
                let mut out: Vec<(String, Json)> = Vec::new();
                let mut i: usize = 0;
                while i < v.len()
                    invariant
                        i <= v@.len(),
                        entries(out@) == entries(v@).take(i as int),
                        *self == Json::Object(*v),
                    decreases v@.len() - i,
                {
                    assert(decreases_to!(*self => self->Object_0));
                    assert(decreases_to!(self->Object_0 => self->Object_0@[i as int]));
                    let item = v[i].1.duplicate();
                    let entry = (v[i].0.clone(), item);
                    assert(entries(out@.push(entry)) =~= entries(out@).push((entry.0@, entry.1@)));
                    assert(entries(v@).take(i + 1) =~= entries(v@).take(i as int).push(
                        (entry.0@, entry.1@),
                    ));
                    out.push(entry);
                    i += 1;
                }
                proof {
                    assert(entries(v@).take(i as int) =~= entries(v@));
                    lemma_object_view(*v);
                    lemma_object_view(out);
                }
                Json::Object(out)
            },
        }
    }
}

/// Puts `value` under `key`.
pub fn put_entry(v: &mut Vec<(String, Json)>, key: &str, value: Json)
    ensures
        entries(final(v)@) == with_entry(entries(old(v)@), key@, value@),
{
    let ghost e = entries(v@);
    let mut i: usize = 0;
    assert(e.skip(0) =~= e);
    assert(e.take(0) + with_entry(e, key@, value@) =~= with_entry(e, key@, value@));
    while i < v.len()
        invariant
            i <= v@.len(),
            v@ == old(v)@,
            e == entries(old(v)@),
            with_entry(e, key@, value@) == e.take(i as int) + with_entry(
                e.skip(i as int),
                key@,
                value@,
            ),
        decreases v@.len() - i,
    {
        assert(e.skip(i as int)[0] == e[i as int]);
        assert(e.skip(i as int).skip(1) =~= e.skip(i + 1));
        if same(v[i].0.as_str(), key) {
            let k = v[i].0.clone();
            v[i] = (k, value);
            assert(entries(v@) =~= e.take(i as int) + (seq![(key@, value@)] + e.skip(i + 1)));
            return;
        }
        assert(e.take(i as int) + (seq![e[i as int]] + with_entry(e.skip(i + 1), key@, value@))
            =~= e.take(i + 1) + with_entry(e.skip(i + 1), key@, value@));
        i += 1;
    }
    assert(e.skip(i as int).len() == 0);
    assert(e.take(i as int) =~= e);
    v.push((key.to_owned(), value));
    assert(entries(v@) =~= e + seq![(key@, value@)]);
}

/// Puts an entry behind the others.
pub fn push_entry(v: &mut Vec<(String, Json)>, key: &str, value: Json)
    ensures
        entries(final(v)@) == entries(old(v)@).push((key@, value@)),
{
    v.push((key.to_owned(), value));
    assert(entries(v@) =~= entries(old(v)@).push((key@, value@)));
}

/// Puts a value behind the others.
pub fn push_value(v: &mut Vec<Json>, value: Json)
    ensures
        values(final(v)@) == values(old(v)@).push(value@),
{
    v.push(value);
    assert(values(v@) =~= values(old(v)@).push(value@));
}

/// The object with these entries.
pub fn object(v: Vec<(String, Json)>) -> (r: Json)
    ensures
        r@ == JsonView::Object(entries(v@)),
{
    proof {
        lemma_object_view(v);
    }
    Json::Object(v)
}

/// The array of these values.
pub fn array(v: Vec<Json>) -> (r: Json)
    ensures
        r@ == JsonView::Array(values(v@)),
{
    proof {
        lemma_array_view(v);
    }
    Json::Array(v)
}

/// A text as a value.
pub fn text_value(s: &str) -> (r: Json)
    ensures
        r@ == JsonView::Text(s@),
{
    Json::Text(s.to_owned())
}

/// No entries.
pub fn no_entries() -> (v: Vec<(String, Json)>)
    ensures
        entries(v@) == Seq::<(Seq<char>, JsonView)>::empty(),
{
    let v: Vec<(String, Json)> = Vec::new();
    assert(entries(v@) =~= Seq::<(Seq<char>, JsonView)>::empty());
    v
}

/// No values.
pub fn no_values() -> (v: Vec<Json>)
    ensures
        values(v@) == Seq::<JsonView>::empty(),
{
    let v: Vec<Json> = Vec::new();
    assert(values(v@) =~= Seq::<JsonView>::empty());
    v
}

/// The JSON value type of `serde_json`.
#[verifier::external_type_specification]
#[verifier::external_body]
pub struct ExValue(serde_json::Value);

/// The error type of `serde_json`.
#[verifier::external_type_specification]
#[verifier::external_body]
pub struct ExError(serde_json::Error);

/// Whether the entries of every object stand in the order of their keys, each key once.
pub open spec fn in_key_order(v: JsonView) -> bool
    decreases v,
{
    match v {
        JsonView::Array(items) => forall|i: int|
            0 <= i < items.len() ==> in_key_order(#[trigger] items[i]),
        JsonView::Object(e) => {
            &&& forall|i: int, j: int|
                0 <= i < j < e.len() ==> #[trigger] text::text_le(e[i].0, e[j].0) && e[i].0
                    != e[j].0
            &&& forall|i: int| 0 <= i < e.len() ==> in_key_order((#[trigger] e[i]).1)
        },
        _ => true,
    }
}

/// Whether every number is an integer of 64 bits.
pub open spec fn has_integers_only(v: JsonView) -> bool
    decreases v,
{
    match v {
        JsonView::Decimal(_) => false,
        JsonView::Array(items) => forall|i: int|
            0 <= i < items.len() ==> has_integers_only(#[trigger] items[i]),
        JsonView::Object(e) => forall|i: int|
            0 <= i < e.len() ==> has_integers_only((#[trigger] e[i]).1),
        _ => true,
    }
}

/// What a value of `serde_json` holds.
pub uninterp spec fn value_contents(value: serde_json::Value) -> JsonView;

/// What `serde_json::from_str` makes of a text: the value, or its message.
pub uninterp spec fn parsed_json(text: Seq<char>) -> Result<JsonView, Seq<char>>;

/// What a `serde_json::Value` keeps of a value that is put into it.
pub uninterp spec fn stored_json(value: JsonView) -> JsonView;

/// What `serde_json::Value` prints for its contents.
pub uninterp spec fn printed_json(contents: JsonView) -> Seq<char>;

/// The text of a value.
pub open spec fn rendered_json(value: JsonView) -> Seq<char> {
    printed_json(stored_json(value))
}

/// The contents of a value of `serde_json`, one variant for one: an integer of
/// 64 bits as such, any other number in its notation, an object's entries in the
/// order in which `serde_json::Map`, a `BTreeMap` of the keys, hands them out.
#[verifier::external_body]
fn json_from_value(value: serde_json::Value) -> (r: Json)
    ensures
        r@ == value_contents(value),
        in_key_order(r@),
{
    match value {
        serde_json::Value::Null => Json::Null,
        serde_json::Value::Bool(b) => Json::Bool(b),
        serde_json::Value::Number(n) => match (n.as_u64(), n.as_i64()) {
            (Some(u), _) => Json::Unsigned(u),
            (None, Some(i)) => Json::Signed(i),
            (None, None) => Json::Decimal(n.to_string()),
        },
        serde_json::Value::String(s) => Json::Text(s),
        serde_json::Value::Array(v) => Json::Array(v.into_iter().map(json_from_value).collect()),
        serde_json::Value::Object(m) => Json::Object(
            m.into_iter().map(|(k, v)| (k, json_from_value(v))).collect(),
        ),
    }
}

/// `serde_json::from_str`: the value that the text denotes, or the message of
/// the error. The same text always gives the same result.
#[verifier::external_body]
fn value_from_text(text: &str) -> (r: Result<serde_json::Value, String>)
    ensures
        (match r {
            Ok(v) => parsed_json(text@) == Ok::<JsonView, Seq<char>>(value_contents(v)),
            Err(e) => parsed_json(text@) == Err::<JsonView, Seq<char>>(e@),
        }),
{
    serde_json::from_str::<serde_json::Value>(text).map_err(|error| error.to_string())
}

/// What a stream of JSON values starts with.
pub enum JsonScan {
    /// No value: the text is empty or white space.
    End,
    /// No valid value.
    Invalid,
    /// A value, and the number of characters up to its end.
    Value(Json, usize),
}

/// What a `JsonScan` is.
pub enum ScanView {
    End,
    Invalid,
    Value(JsonView, int),
}

impl JsonScan {
    pub open spec fn view(&self) -> ScanView {
        match self {
            JsonScan::End => ScanView::End,
            JsonScan::Invalid => ScanView::Invalid,
            JsonScan::Value(j, n) => ScanView::Value(j@, *n as int),
        }
    }
}

/// What `serde_json::StreamDeserializer` reads first from a text.
pub uninterp spec fn scanned_json(text: Seq<char>) -> ScanView;

/// `serde_json::StreamDeserializer::next` on a fresh stream over the text, and its
/// `byte_offset` counted in characters. `None` where nothing is left, an error where
/// what is left starts with no value. The same text always gives the same result, and a
/// value has at least one character and ends within the text.
#[verifier::external_body]
fn first_value(text: &str) -> (r: Option<Result<(serde_json::Value, usize), serde_json::Error>>)
    ensures
        (match r {
            None => scanned_json(text@) == ScanView::End,
            Some(Err(_)) => scanned_json(text@) == ScanView::Invalid,
            Some(Ok((v, n))) => scanned_json(text@) == ScanView::Value(value_contents(v), n as int)
                && 0 < n <= text@.len(),
        }),
{
    let mut stream = serde_json::Deserializer::from_str(text).into_iter::<serde_json::Value>();
    let first = stream.next();
    let end = text[..stream.byte_offset()].chars().count();
    first.map(|result| result.map(|value| (value, end)))
}

/// What a stream of JSON values starts with.
pub fn scan_json(text: &str) -> (r: JsonScan)
    ensures
        r@ == scanned_json(text@),
        r matches JsonScan::Value(j, n) ==> 0 < n <= text@.len() && in_key_order(j@),
{
    match first_value(text) {
        None => JsonScan::End,
        Some(Err(_)) => JsonScan::Invalid,
        Some(Ok((value, end))) => JsonScan::Value(json_from_value(value), end),
    }
}

/// The `serde_json::Value` for a JSON value, one variant for one. The value alone decides
/// what is kept of it, and one whose numbers are integers and whose objects are in the order
/// of their keys is kept as it is. Which of two entries with one key is kept, and what
/// becomes of the notation of a fraction, is not stated.
#[verifier::external_body]
fn value_from_json(json: &Json) -> (r: serde_json::Value)
    ensures
        value_contents(r) == stored_json(json@),
        in_key_order(json@) && has_integers_only(json@) ==> value_contents(r) == json@,
{
    match json {
        Json::Null => serde_json::Value::Null,
        Json::Bool(b) => serde_json::Value::Bool(*b),
        Json::Unsigned(n) => serde_json::Value::from(*n),
        Json::Signed(n) => serde_json::Value::from(*n),
        Json::Decimal(s) => serde_json::from_str(s).unwrap_or(serde_json::Value::Null),
        Json::Text(s) => serde_json::Value::String(s.clone()),
        Json::Array(v) => serde_json::Value::Array(v.iter().map(value_from_json).collect()),
        Json::Object(v) => serde_json::Value::Object(
            v.iter().map(|(k, j)| (k.clone(), value_from_json(j))).collect(),
        ),
    }
}

/// What `serde_json::Value` prints, compact JSON. Its contents alone decide the text.
#[verifier::external_body]
fn text_from_value(value: &serde_json::Value) -> (r: String)
    ensures
        r@ == printed_json(value_contents(*value)),
{
    value.to_string()
}

/// The value that a text denotes, or why it denotes none. In which order a text gives the
/// entries of an object does not matter: they are put in that of their keys.
pub fn parse_json(text: &str) -> (r: Result<Json, String>)
    ensures
        (match r {
            Ok(j) => parsed_json(text@) == Ok::<JsonView, Seq<char>>(j@) && in_key_order(j@),
            Err(e) => parsed_json(text@) == Err::<JsonView, Seq<char>>(e@),
        }),
{
    match value_from_text(text) {
        Ok(value) => Ok(json_from_value(value)),
        Err(error) => Err(error),
    }
}

/// The text of a value.
pub fn render_json(json: &Json) -> (r: String)
    ensures
        r@ == rendered_json(json@),
        in_key_order(json@) && has_integers_only(json@) ==> r@ == printed_json(json@),
{
    let value = value_from_json(json);
    text_from_value(&value)
}

} // verus!
