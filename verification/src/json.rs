//! JSON values as plain data, read and written with `serde_json`.

use vstd::prelude::*;
use vstd::string::*;

use serde_json::Value;

use crate::assoc;
use crate::text;

verus! {

/// A number that is neither a `u64` nor an `i64`, as `serde_json` holds it.
pub struct Real {
    number: serde_json::Number,
}

/// A JSON value.
pub enum Json {
    Null,
    Bool(bool),
    UInt(u64),
    Int(i64),
    Float(Real),
    Str(String),
    Array(Vec<Json>),
    Object(Vec<(String, Json)>),
}

/// `serde_json`'s number type, carried without looking inside.
#[verifier::external_type_specification]
#[verifier::external_body]
pub struct ExNumber(serde_json::Number);

/// `serde_json`'s value type: a tree of JSON values.
#[verifier::external_type_specification]
#[verifier::external_body]
pub struct ExValue(serde_json::Value);

/// What a JSON value is. An integer from zero on is always a `UInt`.
pub enum JsonView {
    Null,
    Bool(bool),
    UInt(u64),
    Int(i64),
    Float(Real),
    Str(Seq<char>),
    Array(Seq<JsonView>),
    Object(Seq<(Seq<char>, JsonView)>),
}

impl View for Json {
    type V = JsonView;

    open spec fn view(&self) -> JsonView {
        shape(*self)
    }
}

/// What a JSON value is, part by part.
pub open spec fn shape(j: Json) -> JsonView
    decreases j,
{
    match j {
        Json::Null => JsonView::Null,
        Json::Bool(b) => JsonView::Bool(b),
        Json::UInt(n) => JsonView::UInt(n),
        Json::Int(n) => if n >= 0 {
            JsonView::UInt(n as u64)
        } else {
            JsonView::Int(n)
        },
        Json::Float(x) => JsonView::Float(x),
        Json::Str(s) => JsonView::Str(s@),
        Json::Array(v) => JsonView::Array(element_shapes(v)),
        Json::Object(v) => JsonView::Object(assoc::with_all(Seq::empty(), pair_shapes(v))),
    }
}

/// What the elements of an array are.
pub open spec fn element_shapes(v: Vec<Json>) -> Seq<JsonView>
    decreases v,
{
    Seq::new(
        v@.len(),
        |i: int|
            if 0 <= i < v@.len() {
                shape(v@[i])
            } else {
                JsonView::Null
            },
    )
}

/// What the named values of an object are.
pub open spec fn pair_shapes(v: Vec<(String, Json)>) -> Seq<(Seq<char>, JsonView)>
    decreases v,
{
    Seq::new(
        v@.len(),
        |i: int|
            if 0 <= i < v@.len() {
                (v@[i].0@, shape(v@[i].1))
            } else {
                (Seq::empty(), JsonView::Null)
            },
    )
}

/// The views of a list of values.
pub open spec fn views(v: Seq<Json>) -> Seq<JsonView> {
    v.map_values(|j: Json| j@)
}

/// The views of a list of named values.
pub open spec fn pair_views(v: Seq<(String, Json)>) -> Seq<(Seq<char>, JsonView)> {
    v.map_values(|p: (String, Json)| (p.0@, p.1@))
}

/// The view of an array is the views of its elements.
pub broadcast proof fn array_view(v: Vec<Json>)
    ensures
        #[trigger] Json::Array(v)@ == JsonView::Array(views(v@)),
{
    reveal_with_fuel(element_shapes, 2);
    reveal_with_fuel(shape, 2);
    assert(element_shapes(v) =~= views(v@));
}

/// The view of an object is the members that its pairs amount to.
pub broadcast proof fn object_view(v: Vec<(String, Json)>)
    ensures
        #[trigger] Json::Object(v)@ == JsonView::Object(assoc::with_all(Seq::empty(), pair_views(v@))),
{
    reveal_with_fuel(pair_shapes, 2);
    reveal_with_fuel(shape, 2);
    assert(pair_shapes(v) =~= pair_views(v@));
}

impl JsonView {
    /// The object without members.
    pub open spec fn object() -> JsonView {
        JsonView::Object(Seq::empty())
    }

    /// An object with one member set; any other value as it is.
    pub open spec fn put(self, key: Seq<char>, value: JsonView) -> JsonView {
        match self {
            JsonView::Object(m) => JsonView::Object(assoc::with(m, key, value)),
            other => other,
        }
    }

    /// The member of an object with that name.
    pub open spec fn get(self, key: Seq<char>) -> Option<JsonView> {
        match self {
            JsonView::Object(m) => assoc::lookup(m, key),
            _ => None,
        }
    }

    /// The characters of a string.
    pub open spec fn as_str(self) -> Option<Seq<char>> {
        match self {
            JsonView::Str(s) => Some(s),
            _ => None,
        }
    }

    /// The number, where it is an integer from zero on.
    pub open spec fn as_u64(self) -> Option<u64> {
        match self {
            JsonView::UInt(n) => Some(n),
            _ => None,
        }
    }

    /// The elements of an array.
    pub open spec fn as_array(self) -> Option<Seq<JsonView>> {
        match self {
            JsonView::Array(v) => Some(v),
            _ => None,
        }
    }

    /// The characters of the string member with that name.
    pub open spec fn get_str(self, key: Seq<char>) -> Option<Seq<char>> {
        match self.get(key) {
            Some(v) => v.as_str(),
            None => None,
        }
    }

    /// The characters of the string member with that name, or `default`.
    pub open spec fn get_str_or(self, key: Seq<char>, default: Seq<char>) -> Seq<char> {
        match self.get_str(key) {
            Some(s) => s,
            None => default,
        }
    }

    /// The integer member with that name, or `default`.
    pub open spec fn get_u64_or(self, key: Seq<char>, default: u64) -> u64 {
        match self.get(key) {
            Some(v) => match v.as_u64() {
                Some(n) => n,
                None => default,
            },
            None => default,
        }
    }

    /// A number as a floating-point number is displayed: an integer that a double holds
    /// exactly in plain decimal.
    pub open spec fn number_text(self) -> Option<Seq<char>> {
        if !self.is_number() {
            None
        } else if self is UInt && self->UInt_0 <= EXACT_INTEGER {
            Some(text::decimal_text(self->UInt_0 as nat))
        } else {
            number_display(self)
        }
    }

    /// Whether the value is a number.
    pub open spec fn is_number(self) -> bool {
        self is UInt || self is Int || self is Float
    }
}

/// How deep arrays and objects are nested in a value that is read back for certain.
pub const SHALLOW: u64 = 100;

/// Whether arrays and objects are nested at most `n` deep in a value.
pub open spec fn nested_at_most(v: JsonView, n: nat) -> bool
    decreases n,
{
    match v {
        JsonView::Array(a) => n > 0 && forall|i: int|
            0 <= i < a.len() ==> nested_at_most(#[trigger] a[i], (n - 1) as nat),
        JsonView::Object(m) => n > 0 && forall|i: int|
            0 <= i < m.len() ==> nested_at_most((#[trigger] m[i]).1, (n - 1) as nat),
        _ => true,
    }
}

/// Setting a member leaves an object as shallow as it and the member allow.
pub proof fn put_stays_shallow(v: JsonView, key: Seq<char>, value: JsonView, n: nat)
    requires
        n > 0,
        nested_at_most(v, n),
        nested_at_most(value, (n - 1) as nat),
    ensures
        nested_at_most(v.put(key, value), n),
{
    if let JsonView::Object(m) = v {
        let w = assoc::with(m, key, value);
        assoc::place_is_last(m, key);
        assert forall|i: int| 0 <= i < w.len() implies nested_at_most(
            (#[trigger] w[i]).1,
            (n - 1) as nat,
        ) by {
            if i < m.len() {
                assert(w[i] == m[i] || w[i] == (key, value));
            }
        }
    }
}

impl JsonView {
    /// Whether the value is an object in which no name stands twice.
    pub open spec fn keyed(self) -> bool {
        self is Object && assoc::distinct(self->Object_0)
    }
}

/// The object without members is one in which no name stands twice, and it has no member.
pub proof fn object_is_keyed()
    ensures
        JsonView::object().keyed(),
        forall|k: Seq<char>| (#[trigger] JsonView::object().get(k)) is None,
{
    assert forall|k: Seq<char>| (#[trigger] JsonView::object().get(k)) is None by {
        assert(assoc::place(Seq::<(Seq<char>, JsonView)>::empty(), k) is None);
    }
}

/// Setting a member of an object gives it that value and leaves all others alone.
pub proof fn put_sets(j: JsonView, key: Seq<char>, value: JsonView)
    requires
        j.keyed(),
    ensures
        j.put(key, value).keyed(),
        forall|other: Seq<char>|
            #[trigger] j.put(key, value).get(other) == if other == key {
                Some(value)
            } else {
                j.get(other)
            },
{
    assoc::with_sets(j->Object_0, key, value, key);
    assert forall|other: Seq<char>|
        #[trigger] j.put(key, value).get(other) == if other == key {
            Some(value)
        } else {
            j.get(other)
        } by {
        assoc::with_sets(j->Object_0, key, value, other);
    }
}

/// A string or nothing, as JSON.
pub open spec fn opt_str_view(s: Option<Seq<char>>) -> JsonView {
    match s {
        Some(t) => JsonView::Str(t),
        None => JsonView::Null,
    }
}

impl Json {
    /// The object without members.
    pub fn object() -> (r: Json)
        ensures
            r@ == JsonView::object(),
    {
        let v: Vec<(String, Json)> = Vec::new();
        proof {
            object_view(v);
            assert(pair_views(v@) =~= Seq::empty());
        }
        Json::Object(v)
    }

    /// A string.
    pub fn string(s: &str) -> (r: Json)
        ensures
            r@ == JsonView::Str(s@),
    {
        Json::Str(s.to_owned())
    }

    /// A string or `null`.
    pub fn opt_string(s: &Option<String>) -> (r: Json)
        ensures
            r@ == opt_str_view(text::opt(*s)),
    {
        match s {
            Some(t) => Json::string(t.as_str()),
            None => Json::Null,
        }
    }

    /// An object with one member set; any other value as it is.
    pub fn put(self, key: &str, value: Json) -> (r: Json)
        ensures
            r@ == self@.put(key@, value@),
    {
        match self {
            Json::Object(v) => {
                let mut w: Vec<(String, Json)> = v;
                proof {
                    object_view(v);
                }
                w.push((key.to_owned(), value));
                proof {
                    object_view(w);
                    assert(pair_views(w@).drop_last() =~= pair_views(v@));
                }
                Json::Object(w)
            },
            other => other,
        }
    }

    /// The member of an object with that name.
    pub fn get(&self, key: &str) -> (r: Option<&Json>)
        ensures
            match r {
                Some(j) => self@.get(key@) == Some(j@),
                None => self@.get(key@) is None,
            },
    {
        match self {
            Json::Object(v) => {
                proof {
                    object_view(*v);
                    assoc::with_all_lookup(Seq::empty(), pair_views(v@), key@);
                }
                let mut i: usize = v.len();
                assert(pair_views(v@).subrange(0, i as int) =~= pair_views(v@));
                while i > 0
                    invariant
                        i <= v.len(),
                        assoc::place(pair_views(v@), key@) == assoc::place(
                            pair_views(v@).subrange(0, i as int),
                            key@,
                        ),
                        self@.get(key@) == match assoc::place(pair_views(v@), key@) {
                            Some(i) => Some(pair_views(v@)[i].1),
                            None => None,
                        },
                    decreases i,
                {
                    assert(pair_views(v@).subrange(0, i as int).drop_last() =~= pair_views(
                        v@,
                    ).subrange(0, i - 1));
                    i -= 1;
                    if text::same(v[i].0.as_str(), key) {
                        return Some(&v[i].1);
                    }
                }
                None
            },
            _ => None,
        }
    }

    /// The characters of a string.
    pub fn as_str(&self) -> (r: Option<&str>)
        ensures
            match r {
                Some(s) => self@.as_str() == Some(s@),
                None => self@.as_str() is None,
            },
    {
        match self {
            Json::Str(s) => Some(s.as_str()),
            _ => None,
        }
    }

    /// The number, where it is an integer from zero on.
    pub fn as_u64(&self) -> (r: Option<u64>)
        ensures
            r == self@.as_u64(),
    {
        match self {
            Json::UInt(n) => Some(*n),
            Json::Int(n) => if *n >= 0 {
                Some(*n as u64)
            } else {
                None
            },
            _ => None,
        }
    }

    /// The elements of an array.
    pub fn as_array(&self) -> (r: Option<&Vec<Json>>)
        ensures
            match r {
                Some(v) => self@.as_array() == Some(views(v@)),
                None => self@.as_array() is None,
            },
    {
        match self {
            Json::Array(v) => {
                proof {
                    array_view(*v);
                }
                Some(v)
            },
            _ => None,
        }
    }

    /// The characters of the string member with that name.
    pub fn get_str(&self, key: &str) -> (r: Option<&str>)
        ensures
            match r {
                Some(s) => self@.get_str(key@) == Some(s@),
                None => self@.get_str(key@) is None,
            },
    {
        match self.get(key) {
            Some(v) => v.as_str(),
            None => None,
        }
    }

    /// The characters of the string member with that name, or `default`.
    pub fn get_str_or(&self, key: &str, default: &str) -> (r: String)
        ensures
            r@ == self@.get_str_or(key@, default@),
    {
        match self.get_str(key) {
            Some(s) => s.to_owned(),
            None => default.to_owned(),
        }
    }

    /// The integer member with that name, or `default`.
    pub fn get_u64_or(&self, key: &str, default: u64) -> (r: u64)
        ensures
            r == self@.get_u64_or(key@, default),
    {
        match self.get(key) {
            Some(v) => match v.as_u64() {
                Some(n) => n,
                None => default,
            },
            None => default,
        }
    }

    /// A copy of the value.
    pub fn duplicate(&self) -> (r: Json)
        ensures
            r@ == self@,
        decreases self,
    {
        match self {
            Json::Null => Json::Null,
            Json::Bool(b) => Json::Bool(*b),
            Json::UInt(n) => Json::UInt(*n),
            Json::Int(n) => Json::Int(*n),
            Json::Float(x) => Json::Float(Real { number: copy_number(&x.number) }),
            Json::Str(s) => Json::Str(s.clone()),
            Json::Array(v) => {
                let mut out: Vec<Json> = Vec::new();
                let mut i: usize = 0;
                while i < v.len()
                    invariant
                        i <= v.len(),
                        views(out@) == views(v@).subrange(0, i as int),
                        decreases_to!(self => *v),
                    decreases v.len() - i,
                {
                    let ghost before = out@;
                    proof {
                        assert(decreases_to!(*v => v@[i as int]));
                    }
                    let c: Json = v[i].duplicate();
                    out.push(c);
                    assert(views(out@) =~= views(before).push(c@));
                    assert(views(v@).subrange(0, i + 1) =~= views(v@).subrange(0, i as int).push(
                        v@[i as int]@,
                    ));
                    i += 1;
                }
                proof {
                    assert(views(v@).subrange(0, i as int) =~= views(v@));
                    array_view(*v);
                    array_view(out);
                }
                Json::Array(out)
            },
            Json::Object(v) => {
                let mut out: Vec<(String, Json)> = Vec::new();
                let mut i: usize = 0;
                while i < v.len()
                    invariant
                        i <= v.len(),
                        pair_views(out@) == pair_views(v@).subrange(0, i as int),
                        decreases_to!(self => *v),
                    decreases v.len() - i,
                {
                    let ghost before = out@;
                    proof {
                        assert(decreases_to!(*v => v@[i as int]));
                    }
                    let k: String = v[i].0.clone();
                    let c: Json = v[i].1.duplicate();
                    out.push((k, c));
                    assert(pair_views(out@) =~= pair_views(before).push((k@, c@)));
                    assert(pair_views(v@).subrange(0, i + 1) =~= pair_views(v@).subrange(
                        0,
                        i as int,
                    ).push((v@[i as int].0@, v@[i as int].1@)));
                    i += 1;
                }
                proof {
                    assert(pair_views(v@).subrange(0, i as int) =~= pair_views(v@));
                    object_view(*v);
                    object_view(out);
                }
                Json::Object(out)
            },
        }
    }

    /// What a `serde_json` value holds.
    pub fn of_value(v: &Value) -> (r: Json)
        ensures
            r@ == value_contents(*v),
    {
        read_value(v)
    }

    /// The value as `serde_json` holds it.
    pub fn to_value(&self) -> (r: Value)
        ensures
            value_contents(r) == self@,
    {
        write_value(self)
    }

    /// Reads JSON text.
    pub fn parse(text: &str) -> (r: Result<Json, String>)
        ensures
            match r {
                Ok(j) => json_parsed(text@) == Ok::<JsonView, Seq<char>>(j@),
                Err(e) => json_parsed(text@) == Err::<JsonView, Seq<char>>(e@),
            },
    {
        match parse_value(text) {
            Ok(v) => Ok(read_value(&v)),
            Err(e) => Err(e),
        }
    }

    /// The value as JSON text on one line. The same value is read back from the text, as
    /// long as it is not nested too deep. The text of an object is the longer, the more members
    /// it has.
    pub fn to_text(&self) -> (r: String)
        ensures
            r@ == json_text(self@),
            self@ matches JsonView::Object(m) ==> r@.len() >= 2 + 4 * m.len(),
            nested_at_most(self@, SHALLOW as nat) ==> json_parsed(r@) is Ok && json_parsed(
                r@,
            )->Ok_0 == self@,
    {
        value_text(&write_value(self))
    }

    /// The value as indented JSON text.
    pub fn to_pretty_text(&self) -> (r: String)
        ensures
            r@ == json_pretty_text(self@),
    {
        value_pretty_text(&write_value(self))
    }

    /// A number as a floating-point number is displayed.
    pub fn number_text(&self) -> (r: Option<String>)
        ensures
            text::opt(r) == self@.number_text(),
    {
        value_number_text(&write_value(self))
    }
}

/// Every integer up to this one is a double.
pub const EXACT_INTEGER: u64 = 9_007_199_254_740_992;

/// What a `serde_json::Value` holds.
pub uninterp spec fn value_contents(v: Value) -> JsonView;

/// What `serde_json::from_str` reads from a text, or the text of its error.
pub uninterp spec fn json_parsed(text: Seq<char>) -> Result<JsonView, Seq<char>>;

/// What `serde_json::Value::to_string` writes.
pub uninterp spec fn json_text(v: JsonView) -> Seq<char>;

/// What `serde_json::to_string_pretty` writes.
pub uninterp spec fn json_pretty_text(v: JsonView) -> Seq<char>;

/// The text of `serde_json::Value::as_f64`, where the value is a number.
pub uninterp spec fn number_display(v: JsonView) -> Option<Seq<char>>;

/// Copies a `serde_json::Number` with its `clone`, which keeps the number.
#[verifier::external_body]
fn copy_number(n: &serde_json::Number) -> (r: serde_json::Number)
    ensures
        r == *n,
{
    n.clone()
}

/// Calls `serde_json::from_str`. What a text denotes is only named here.
#[verifier::external_body]
fn parse_value(text: &str) -> (r: Result<Value, String>)
    ensures
        match r {
            Ok(v) => json_parsed(text@) == Ok::<JsonView, Seq<char>>(value_contents(v)),
            Err(e) => json_parsed(text@) == Err::<JsonView, Seq<char>>(e@),
        },
{
    serde_json::from_str::<Value>(text).map_err(|e| e.to_string())
}

/// Calls `serde_json::Value::is_null`.
#[verifier::external_body]
fn value_is_null(v: &Value) -> (r: bool)
    ensures
        r == (value_contents(*v) is Null),
{
    v.is_null()
}

/// Calls `serde_json::Value::as_bool`.
#[verifier::external_body]
fn value_bool(v: &Value) -> (r: Option<bool>)
    ensures
        r == match value_contents(*v) {
            JsonView::Bool(b) => Some(b),
            _ => None,
        },
{
    v.as_bool()
}

/// Calls `serde_json::Value::as_u64`, which gives the integers from zero on.
#[verifier::external_body]
fn value_u64(v: &Value) -> (r: Option<u64>)
    ensures
        r == value_contents(*v).as_u64(),
{
    v.as_u64()
}

/// Calls `serde_json::Value::as_i64`, which gives the integers that an `i64` holds. One that
/// is not held as a `u64` is negative.
#[verifier::external_body]
fn value_i64(v: &Value) -> (r: Option<i64>)
    ensures
        r == match value_contents(*v) {
            JsonView::UInt(n) => if n <= i64::MAX {
                Some(n as i64)
            } else {
                None
            },
            JsonView::Int(n) => Some(n),
            _ => None,
        },
        value_contents(*v) is Int ==> r->0 < 0,
{
    v.as_i64()
}

/// Calls `serde_json::Value::as_number`. A number that is no integer is held as it is.
#[verifier::external_body]
fn value_number(v: &Value) -> (r: Option<serde_json::Number>)
    ensures
        r is Some == value_contents(*v).is_number(),
        value_contents(*v) is Float ==> r == Some(value_contents(*v)->Float_0.number),
{
    v.as_number().cloned()
}

/// Calls `serde_json::Value::as_str`.
#[verifier::external_body]
fn value_str(v: &Value) -> (r: Option<&str>)
    ensures
        text::opt_str(r) == value_contents(*v).as_str(),
{
    v.as_str()
}

/// What the elements of an array hold.
pub open spec fn element_contents(v: Seq<Value>) -> Seq<JsonView> {
    v.map_values(|x: Value| value_contents(x))
}

/// What the members of an object hold.
pub open spec fn member_contents(v: Seq<(String, &Value)>) -> Seq<(Seq<char>, JsonView)> {
    v.map_values(|p: (String, &Value)| (p.0@, value_contents(*p.1)))
}

/// What named values hold.
pub open spec fn named_contents(v: Seq<(String, Value)>) -> Seq<(Seq<char>, JsonView)> {
    v.map_values(|p: (String, Value)| (p.0@, value_contents(p.1)))
}

/// Calls `serde_json::Value::as_array`.
#[verifier::external_body]
fn value_array(v: &Value) -> (r: Option<&Vec<Value>>)
    ensures
        match r {
            Some(a) => value_contents(*v) == JsonView::Array(element_contents(a@)),
            None => !(value_contents(*v) is Array),
        },
{
    v.as_array()
}

/// Calls `serde_json::Value::as_object` and lists the members in their order. No name comes
/// twice.
#[verifier::external_body]
fn value_members(v: &Value) -> (r: Option<Vec<(String, &Value)>>)
    ensures
        match r {
            Some(m) => value_contents(*v) == JsonView::Object(member_contents(m@)),
            None => !(value_contents(*v) is Object),
        },
        r is Some ==> assoc::distinct(member_contents(r->0@)),
{
    Some(v.as_object()?.iter().map(|(k, x)| (k.clone(), x)).collect())
}

/// Calls `serde_json::Value::from` for nothing, which gives `null`.
#[verifier::external_body]
fn null_value() -> (r: Value)
    ensures
        value_contents(r) == JsonView::Null,
{
    Value::from(())
}

/// Calls `serde_json::Value::from` for a truth value.
#[verifier::external_body]
fn bool_value(b: bool) -> (r: Value)
    ensures
        value_contents(r) == JsonView::Bool(b),
{
    Value::from(b)
}

/// Calls `serde_json::Value::from` for an unsigned integer.
#[verifier::external_body]
fn u64_value(n: u64) -> (r: Value)
    ensures
        value_contents(r) == JsonView::UInt(n),
{
    Value::from(n)
}

/// Calls `serde_json::Value::from` for a signed integer.
#[verifier::external_body]
fn i64_value(n: i64) -> (r: Value)
    ensures
        value_contents(r) == if n >= 0 {
            JsonView::UInt(n as u64)
        } else {
            JsonView::Int(n)
        },
{
    Value::from(n)
}

/// Calls `serde_json::Value::from` for a number that is no integer.
#[verifier::external_body]
fn real_value(x: &Real) -> (r: Value)
    ensures
        value_contents(r) == JsonView::Float(*x),
{
    Value::from(x.number.clone())
}

/// Calls `serde_json::Value::from` for a string.
#[verifier::external_body]
fn str_value(s: &str) -> (r: Value)
    ensures
        value_contents(r) == JsonView::Str(s@),
{
    Value::from(s)
}

/// Calls `serde_json::Value::from` for a list of values.
#[verifier::external_body]
fn array_value(v: Vec<Value>) -> (r: Value)
    ensures
        value_contents(r) == JsonView::Array(element_contents(v@)),
{
    Value::from(v)
}

/// Calls `serde_json::Value::from_iter` for named values. An object keeps the order in which
/// names first came, and a later value of a name replaces the earlier one.
#[verifier::external_body]
fn object_value(v: Vec<(String, Value)>) -> (r: Value)
    ensures
        value_contents(r) == JsonView::Object(
            assoc::with_all(Seq::empty(), named_contents(v@)),
        ),
{
    Value::from_iter(v)
}

fn read_value(v: &Value) -> (r: Json)
    ensures
        r@ == value_contents(*v),
    decreases value_contents(*v),
{
    if value_is_null(v) {
        return Json::Null;
    }
    if let Some(b) = value_bool(v) {
        return Json::Bool(b);
    }
    if let Some(n) = value_u64(v) {
        return Json::UInt(n);
    }
    if let Some(n) = value_i64(v) {
        return Json::Int(n);
    }
    if let Some(s) = value_str(v) {
        return Json::string(s);
    }
    if let Some(a) = value_array(v) {
        let mut out: Vec<Json> = Vec::new();
        let mut i: usize = 0;
        while i < a.len()
            invariant
                i <= a.len(),
                value_contents(*v) == JsonView::Array(element_contents(a@)),
                views(out@) == element_contents(a@).subrange(0, i as int),
            decreases a.len() - i,
        {
            let ghost before = out@;
            let ghost all = element_contents(a@);
            proof {
                assert(all[i as int] == value_contents(a@[i as int]));
                assert(decreases_to!(value_contents(*v) => value_contents(*v)->Array_0));
                assert(decreases_to!(all => all[i as int]));
            }
            let c: Json = read_value(&a[i]);
            out.push(c);
            assert(views(out@) =~= views(before).push(c@));
            assert(all.subrange(0, i + 1) =~= all.subrange(0, i as int).push(all[i as int]));
            i += 1;
        }
        proof {
            assert(element_contents(a@).subrange(0, i as int) =~= element_contents(a@));
            array_view(out);
        }
        return Json::Array(out);
    }
    if let Some(m) = value_members(v) {
        let mut out: Vec<(String, Json)> = Vec::new();
        let mut i: usize = 0;
        let ghost all = member_contents(m@);
        while i < m.len()
            invariant
                i <= m.len(),
                all == member_contents(m@),
                value_contents(*v) == JsonView::Object(all),
                pair_views(out@) == all.subrange(0, i as int),
            decreases m.len() - i,
        {
            let ghost before = out@;
            proof {
                assert(all[i as int].1 == value_contents(*m@[i as int].1));
                assert(decreases_to!(value_contents(*v) => value_contents(*v)->Object_0));
                assert(decreases_to!(all => all[i as int]));
                assert(decreases_to!(all[i as int] => all[i as int].1));
            }
            let k: String = m[i].0.clone();
            let c: Json = read_value(m[i].1);
            out.push((k, c));
            assert(pair_views(out@) =~= pair_views(before).push((k@, c@)));
            assert(all.subrange(0, i + 1) =~= all.subrange(0, i as int).push(all[i as int]));
            i += 1;
        }
        proof {
            assert(all.subrange(0, i as int) =~= all);
            object_view(out);
            assoc::with_all_of_distinct(all);
        }
        return Json::Object(out);
    }
    match value_number(v) {
        Some(number) => Json::Float(Real { number }),
        None => Json::Null,
    }
}

fn write_value(j: &Json) -> (r: Value)
    ensures
        value_contents(r) == j@,
    decreases j,
{
    match j {
        Json::Null => null_value(),
        Json::Bool(b) => bool_value(*b),
        Json::UInt(n) => u64_value(*n),
        Json::Int(n) => i64_value(*n),
        Json::Float(x) => real_value(x),
        Json::Str(s) => str_value(s.as_str()),
        Json::Array(v) => {
            let mut out: Vec<Value> = Vec::new();
            let mut i: usize = 0;
            while i < v.len()
                invariant
                    i <= v.len(),
                    element_contents(out@) == views(v@).subrange(0, i as int),
                    decreases_to!(j => *v),
                decreases v.len() - i,
            {
                let ghost before = out@;
                proof {
                    assert(decreases_to!(*v => v@[i as int]));
                }
                let c: Value = write_value(&v[i]);
                let ghost cc = value_contents(c);
                out.push(c);
                assert(element_contents(out@) =~= element_contents(before).push(cc));
                assert(views(v@).subrange(0, i + 1) =~= views(v@).subrange(0, i as int).push(
                    v@[i as int]@,
                ));
                i += 1;
            }
            proof {
                assert(views(v@).subrange(0, i as int) =~= views(v@));
                array_view(*v);
            }
            array_value(out)
        },
        Json::Object(v) => {
            let mut out: Vec<(String, Value)> = Vec::new();
            let mut i: usize = 0;
            while i < v.len()
                invariant
                    i <= v.len(),
                    named_contents(out@) == pair_views(v@).subrange(0, i as int),
                    decreases_to!(j => *v),
                decreases v.len() - i,
            {
                let ghost before = out@;
                proof {
                    assert(decreases_to!(*v => v@[i as int]));
                }
                let k: String = v[i].0.clone();
                let c: Value = write_value(&v[i].1);
                let ghost cc = value_contents(c);
                out.push((k, c));
                assert(named_contents(out@) =~= named_contents(before).push((k@, cc)));
                assert(pair_views(v@).subrange(0, i + 1) =~= pair_views(v@).subrange(
                    0,
                    i as int,
                ).push((v@[i as int].0@, v@[i as int].1@)));
                i += 1;
            }
            proof {
                assert(pair_views(v@).subrange(0, i as int) =~= pair_views(v@));
                object_view(*v);
            }
            object_value(out)
        },
    }
}

/// Calls `serde_json::Value::to_string`. `serde_json::from_str` reads the same value back
/// from the text, as long as it is not nested deeper than the reader goes. A member of an object
/// takes a name in quotes, a colon and a value.
#[verifier::external_body]
fn value_text(v: &Value) -> (r: String)
    ensures
        r@ == json_text(value_contents(*v)),
        value_contents(*v) matches JsonView::Object(m) ==> r@.len() >= 2 + 4 * m.len(),
        nested_at_most(value_contents(*v), SHALLOW as nat) ==> json_parsed(r@) is Ok
            && json_parsed(r@)->Ok_0 == value_contents(*v),
{
    v.to_string()
}

/// Calls `serde_json::to_string_pretty`, which does not fail on a `serde_json::Value`.
#[verifier::external_body]
fn value_pretty_text(v: &Value) -> (r: String)
    ensures
        r@ == json_pretty_text(value_contents(*v)),
{
    serde_json::to_string_pretty(v).unwrap_or_default()
}

/// Calls `serde_json::Value::as_f64`, which gives a number exactly where the value
/// is one, and displays it. An integer that a double holds exactly is displayed
/// in plain decimal.
#[verifier::external_body]
fn value_number_text(v: &Value) -> (r: Option<String>)
    ensures
        text::opt(r) == number_display(value_contents(*v)),
        r is Some == value_contents(*v).is_number(),
        value_contents(*v) is UInt && value_contents(*v)->UInt_0 <= EXACT_INTEGER ==> r->0@
            == text::decimal_text(value_contents(*v)->UInt_0 as nat),
{
    v.as_f64().map(|x| x.to_string())
}

} // verus!
