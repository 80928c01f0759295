//! JSON documents as the service and the manifests exchange them.
//!
//! [`Json`] is the value that the code works on, [`JsonModel`] its
//! mathematical view. An object keeps its members in the order in which they
//! were given; a lookup finds the first member of a name. A print lists them by
//! their names.

use crate::format::hex_char;
use crate::sort::{less_text, text_less, text_less_total, text_less_transitive};
use crate::text::{decimal, joined, same, signed_decimal, to_decimal, to_signed_decimal};
use vstd::prelude::*;
use vstd::string::*;

verus! {

/// A JSON number. A number with a fraction or an exponent is kept as it is
/// printed.
pub enum Number {
    Unsigned(u64),
    Negative(i64),
    Float(String),
}

pub enum Json {
    Null,
    Bool(bool),
    Number(Number),
    Text(String),
    Array(Vec<Json>),
    Object(Vec<(String, Json)>),
}

pub enum NumberModel {
    Unsigned(u64),
    Negative(i64),
    Float(Seq<char>),
}

#[verifier::ext_equal]
pub enum JsonModel {
    Null,
    Bool(bool),
    Number(NumberModel),
    Text(Seq<char>),
    Array(Seq<JsonModel>),
    Object(Seq<(Seq<char>, JsonModel)>),
}

impl View for Number {
    type V = NumberModel;

    open spec fn view(&self) -> NumberModel {
        match *self {
            Number::Unsigned(n) => NumberModel::Unsigned(n),
            Number::Negative(n) => NumberModel::Negative(n),
            Number::Float(s) => NumberModel::Float(s@),
        }
    }
}

impl Json {
    /// The mathematical value of a document.
    pub open spec fn model(self) -> JsonModel
        decreases self,
    {
        match self {
            Json::Null => JsonModel::Null,
            Json::Bool(b) => JsonModel::Bool(b),
            Json::Number(n) => JsonModel::Number(n@),
            Json::Text(s) => JsonModel::Text(s@),
            Json::Array(v) => JsonModel::Array(
                Seq::new(
                    v@.len(),
                    |i: int|
                        if 0 <= i < v@.len() {
                            v@[i].model()
                        } else {
                            JsonModel::Null
                        },
                ),
            ),
            Json::Object(v) => JsonModel::Object(
                Seq::new(
                    v@.len(),
                    |i: int|
                        if 0 <= i < v@.len() {
                            (v@[i].0@, v@[i].1.model())
                        } else {
                            (Seq::<char>::empty(), JsonModel::Null)
                        },
                ),
            ),
        }
    }
}

impl View for Json {
    type V = JsonModel;

    open spec fn view(&self) -> JsonModel {
        self.model()
    }
}

/// The views of a list of documents.
pub open spec fn models(v: Seq<Json>) -> Seq<JsonModel> {
    Seq::new(v.len(), |i: int| v[i]@)
}

/// The views of the members of an object.
pub open spec fn members(v: Seq<(String, Json)>) -> Seq<(Seq<char>, JsonModel)> {
    Seq::new(v.len(), |i: int| (v[i].0@, v[i].1@))
}

/// The value of the first member named `key`.
pub open spec fn lookup(entries: Seq<(Seq<char>, JsonModel)>, key: Seq<char>) -> Option<JsonModel>
    decreases entries.len(),
{
    if entries.len() == 0 {
        None
    } else if entries[0].0 == key {
        Some(entries[0].1)
    } else {
        lookup(entries.drop_first(), key)
    }
}

/// The members with the first one named `key` set to `value`, or with a new
/// last member where there is none of that name.
pub open spec fn replaced(
    entries: Seq<(Seq<char>, JsonModel)>,
    key: Seq<char>,
    value: JsonModel,
) -> Seq<(Seq<char>, JsonModel)>
    decreases entries.len(),
{
    if entries.len() == 0 {
        seq![(key, value)]
    } else if entries[0].0 == key {
        entries.update(0, (key, value))
    } else {
        seq![entries[0]] + replaced(entries.drop_first(), key, value)
    }
}

impl JsonModel {
    /// The member `key` of an object.
    pub open spec fn get(self, key: Seq<char>) -> Option<JsonModel> {
        match self {
            JsonModel::Object(entries) => lookup(entries, key),
            _ => None,
        }
    }

    /// The member `key`, `Null` where there is none.
    pub open spec fn at(self, key: Seq<char>) -> JsonModel {
        match self.get(key) {
            Some(v) => v,
            None => JsonModel::Null,
        }
    }

    pub open spec fn as_text(self) -> Option<Seq<char>> {
        match self {
            JsonModel::Text(s) => Some(s),
            _ => None,
        }
    }

    pub open spec fn as_bool(self) -> Option<bool> {
        match self {
            JsonModel::Bool(b) => Some(b),
            _ => None,
        }
    }

    pub open spec fn as_u64(self) -> Option<u64> {
        match self {
            JsonModel::Number(NumberModel::Unsigned(n)) => Some(n),
            _ => None,
        }
    }

    pub open spec fn as_i64(self) -> Option<i64> {
        match self {
            JsonModel::Number(NumberModel::Unsigned(n)) => if n <= i64::MAX {
                Some(n as i64)
            } else {
                None
            },
            JsonModel::Number(NumberModel::Negative(n)) => Some(n),
            _ => None,
        }
    }

    pub open spec fn as_array(self) -> Option<Seq<JsonModel>> {
        match self {
            JsonModel::Array(v) => Some(v),
            _ => None,
        }
    }

    /// The member `key` where it is a text, the empty text otherwise.
    pub open spec fn text(self, key: Seq<char>) -> Seq<char> {
        match self.at(key) {
            JsonModel::Text(s) => s,
            _ => Seq::<char>::empty(),
        }
    }

    /// The elements of the member `key` where it is a list, none otherwise.
    pub open spec fn list(self, key: Seq<char>) -> Seq<JsonModel> {
        match self.at(key) {
            JsonModel::Array(v) => v,
            _ => Seq::<JsonModel>::empty(),
        }
    }

    /// An object or `Null`: what a member can be set on.
    pub open spec fn settable(self) -> bool {
        self is Null || self is Object
    }

    /// The object with `key` set to `value`; `Null` counts as the empty
    /// object.
    pub open spec fn with(self, key: Seq<char>, value: JsonModel) -> JsonModel {
        match self {
            JsonModel::Object(entries) => JsonModel::Object(replaced(entries, key, value)),
            _ => JsonModel::Object(seq![(key, value)]),
        }
    }
}

/// The model of an integer.
pub open spec fn int_model(n: int) -> JsonModel {
    if n < 0 {
        JsonModel::Number(NumberModel::Negative(n as i64))
    } else {
        JsonModel::Number(NumberModel::Unsigned(n as u64))
    }
}

/// The view of an optional document.
pub open spec fn opt_model(v: Option<&Json>) -> Option<JsonModel> {
    match v {
        Some(j) => Some(j@),
        None => None,
    }
}

/// What follows a member that has been set: the new value is found under its
/// name, and every other name finds what it found before.
pub proof fn replaced_lookup(
    entries: Seq<(Seq<char>, JsonModel)>,
    key: Seq<char>,
    value: JsonModel,
    other: Seq<char>,
)
    ensures
        lookup(replaced(entries, key, value), key) == Some(value),
        other != key ==> lookup(replaced(entries, key, value), other) == lookup(entries, other),
    decreases entries.len(),
{
    reveal_with_fuel(lookup, 2);
    if entries.len() == 0 {
    } else if entries[0].0 == key {
        assert(entries.update(0, (key, value)).drop_first() =~= entries.drop_first());
    } else {
        replaced_lookup(entries.drop_first(), key, value, other);
        assert(replaced(entries, key, value).drop_first() =~= replaced(
            entries.drop_first(),
            key,
            value,
        ));
    }
}

/// A member that is set is found, and every other member is as it was.
pub proof fn set_members_are_found(v: JsonModel, key: Seq<char>, value: JsonModel)
    requires
        v is Object,
    ensures
        v.with(key, value) is Object,
        v.with(key, value).get(key) == Some(value),
        forall|other: Seq<char>|
            other != key ==> #[trigger] v.with(key, value).get(other) == v.get(other),
{
    let entries = v->Object_0;
    replaced_lookup(entries, key, value, key);
    assert forall|other: Seq<char>| other != key implies #[trigger] v.with(key, value).get(other)
        == v.get(other) by {
        replaced_lookup(entries, key, value, other);
    }
}

impl Number {
    pub fn copy(&self) -> (r: Number)
        ensures
            r@ == self@,
    {
        match self {
            Number::Unsigned(n) => Number::Unsigned(*n),
            Number::Negative(n) => Number::Negative(*n),
            Number::Float(s) => Number::Float(s.clone()),
        }
    }
}

impl Json {
    pub fn from_text(s: &str) -> (r: Json)
        ensures
            r@ == JsonModel::Text(s@),
    {
        Json::Text(s.to_owned())
    }

    pub fn from_int(n: i64) -> (r: Json)
        ensures
            r@ == int_model(n as int),
    {
        if n < 0 {
            Json::Number(Number::Negative(n))
        } else {
            Json::Number(Number::Unsigned(n as u64))
        }
    }

    pub fn from_u64(n: u64) -> (r: Json)
        ensures
            r@ == int_model(n as int),
    {
        Json::Number(Number::Unsigned(n))
    }

    pub fn from_bool(b: bool) -> (r: Json)
        ensures
            r@ == JsonModel::Bool(b),
    {
        Json::Bool(b)
    }

    pub fn from_list(v: Vec<Json>) -> (r: Json)
        ensures
            r@ == JsonModel::Array(models(v@)),
    {
        let r = Json::Array(v);
        proof {
            assert(r@->Array_0 =~= models(v@));
        }
        r
    }

    pub fn from_members(v: Vec<(String, Json)>) -> (r: Json)
        ensures
            r@ == JsonModel::Object(members(v@)),
    {
        let r = Json::Object(v);
        proof {
            assert(r@->Object_0 =~= members(v@));
        }
        r
    }

    /// An object without members.
    pub fn empty_object() -> (r: Json)
        ensures
            r@ == JsonModel::Object(Seq::empty()),
    {
        let r = Json::Object(Vec::new());
        proof {
            assert(r@->Object_0 =~= Seq::empty());
        }
        r
    }

    pub fn copy(&self) -> (r: Json)
        ensures
            r@ == self@,
        decreases self,
    {
        match self {
            Json::Null => Json::Null,
            Json::Bool(b) => Json::Bool(*b),
            Json::Number(n) => Json::Number(n.copy()),
            Json::Text(s) => Json::Text(s.clone()),
            Json::Array(v) => {
                let mut out: Vec<Json> = Vec::new();
                let mut i: usize = 0;
                while i < v.len()
                    invariant
                        i <= v.len(),
                        *self == Json::Array(*v),
                        out@.len() == i,
                        forall|j: int| 0 <= j < i ==> (#[trigger] out@[j])@ == v@[j]@,
                    decreases v.len() - i,
                {
                    proof {
                        assert(decreases_to!(self->Array_0 => v@[i as int]));
                    }
                    out.push(v[i].copy());
                    i = i + 1;
                }
                let r = Json::Array(out);
                proof {
                    assert(r@->Array_0 =~= self@->Array_0);
                }
                r
            },
            Json::Object(v) => {
                let mut out: Vec<(String, Json)> = Vec::new();
                let mut i: usize = 0;
                while i < v.len()
                    invariant
                        i <= v.len(),
                        *self == Json::Object(*v),
                        out@.len() == i,
                        forall|j: int|
                            0 <= j < i ==> (#[trigger] out@[j]).0@ == v@[j].0@ && out@[j].1@
                                == v@[j].1@,
                    decreases v.len() - i,
                {
                    proof {
                        assert(decreases_to!(self->Object_0 => v@[i as int].1));
                    }
                    let name: String = v[i].0.clone();
                    out.push((name, v[i].1.copy()));
                    i = i + 1;
                }
                let r = Json::Object(out);
                proof {
                    assert(r@->Object_0 =~= self@->Object_0);
                }
                r
            },
        }
    }

    /// The member `key` of an object.
    pub fn get(&self, key: &str) -> (r: Option<&Json>)
        ensures
            opt_model(r) == self@.get(key@),
    {
        match self {
            Json::Object(v) => {
                let ghost all = members(v@);
                proof {
                    assert(self@->Object_0 =~= all);
                    assert(all.skip(0) =~= all);
                }
                let mut i: usize = 0;
                while i < v.len()
                    invariant
                        i <= v.len(),
                        all == members(v@),
                        self@ == JsonModel::Object(all),
                        lookup(all, key@) == lookup(all.skip(i as int), key@),
                    decreases v.len() - i,
                {
                    proof {
                        assert(all.skip(i as int).drop_first() =~= all.skip(i + 1));
                    }
                    if same(v[i].0.as_str(), key) {
                        return Some(&v[i].1);
                    }
                    i = i + 1;
                }
                None
            },
            _ => None,
        }
    }

    /// The member `key` where it is a text, the empty text otherwise.
    pub fn text(&self, key: &str) -> (r: String)
        ensures
            r@ == self@.text(key@),
    {
        match self.get(key) {
            Some(Json::Text(s)) => s.clone(),
            _ => String::new(),
        }
    }

    /// Whether the member `key`, read as a text, is `value`.
    pub fn text_is(&self, key: &str, value: &str) -> (r: bool)
        ensures
            r == (self@.text(key@) == value@),
    {
        let s: String = self.text(key);
        same(s.as_str(), value)
    }

    /// A copy of the member `key`, `Null` where there is none.
    pub fn at(&self, key: &str) -> (r: Json)
        ensures
            r@ == self@.at(key@),
    {
        match self.get(key) {
            Some(v) => v.copy(),
            None => Json::Null,
        }
    }

    /// Copies of the elements of the member `key`, none where it is no list.
    pub fn list(&self, key: &str) -> (r: Vec<Json>)
        ensures
            models(r@) == self@.list(key@),
    {
        match self.get(key) {
            Some(v) => {
                match v {
                    Json::Array(e) => {
                        proof {
                            assert(v@->Array_0 =~= models(e@));
                        }
                        copy_all(e)
                    },
                    _ => {
                        let r: Vec<Json> = Vec::new();
                        proof {
                            assert(models(r@) =~= Seq::empty());
                        }
                        r
                    },
                }
            },
            None => {
                let r: Vec<Json> = Vec::new();
                proof {
                    assert(models(r@) =~= Seq::empty());
                }
                r
            },
        }
    }

    pub fn as_text(&self) -> (r: Option<String>)
        ensures
            crate::text::opt(r) == self@.as_text(),
    {
        match self {
            Json::Text(s) => Some(s.clone()),
            _ => None,
        }
    }

    pub fn as_bool(&self) -> (r: Option<bool>)
        ensures
            r == self@.as_bool(),
    {
        match self {
            Json::Bool(b) => Some(*b),
            _ => None,
        }
    }

    pub fn as_u64(&self) -> (r: Option<u64>)
        ensures
            r == self@.as_u64(),
    {
        match self {
            Json::Number(Number::Unsigned(n)) => Some(*n),
            _ => None,
        }
    }

    pub fn as_i64(&self) -> (r: Option<i64>)
        ensures
            r == self@.as_i64(),
    {
        match self {
            Json::Number(Number::Unsigned(n)) => if *n <= i64::MAX as u64 {
                Some(*n as i64)
            } else {
                None
            },
            Json::Number(Number::Negative(n)) => Some(*n),
            _ => None,
        }
    }

    pub fn is_null(&self) -> (r: bool)
        ensures
            r == (self@ is Null),
    {
        matches!(self, Json::Null)
    }

    pub fn is_object(&self) -> (r: bool)
        ensures
            r == (self@ is Object),
    {
        matches!(self, Json::Object(_))
    }

    /// Whether two documents are equal.
    pub fn same(&self, other: &Json) -> (r: bool)
        ensures
            r == (self@ == other@),
        decreases self,
    {
        match (self, other) {
            (Json::Null, Json::Null) => true,
            (Json::Bool(a), Json::Bool(b)) => *a == *b,
            (Json::Number(a), Json::Number(b)) => {
                match (a, b) {
                    (Number::Unsigned(x), Number::Unsigned(y)) => *x == *y,
                    (Number::Negative(x), Number::Negative(y)) => *x == *y,
                    (Number::Float(x), Number::Float(y)) => same(x.as_str(), y.as_str()),
                    _ => false,
                }
            },
            (Json::Text(a), Json::Text(b)) => same(a.as_str(), b.as_str()),
            (Json::Array(a), Json::Array(b)) => {
                if a.len() != b.len() {
                    proof {
                        assert(self@->Array_0.len() != other@->Array_0.len());
                    }
                    return false;
                }
                let mut i: usize = 0;
                while i < a.len()
                    invariant
                        i <= a.len() == b.len(),
                        *self == Json::Array(*a),
                        *other == Json::Array(*b),
                        forall|j: int| 0 <= j < i ==> (#[trigger] a@[j])@ == b@[j]@,
                    decreases a.len() - i,
                {
                    proof {
                        assert(decreases_to!(*self => a@[i as int]));
                    }
                    if !a[i].same(&b[i]) {
                        proof {
                            assert(self@->Array_0[i as int] == a@[i as int]@);
                            assert(other@->Array_0[i as int] == b@[i as int]@);
                        }
                        return false;
                    }
                    i = i + 1;
                }
                proof {
                    assert(self@->Array_0 =~= other@->Array_0);
                }
                true
            },
            (Json::Object(a), Json::Object(b)) => {
                if a.len() != b.len() {
                    proof {
                        assert(self@->Object_0.len() != other@->Object_0.len());
                    }
                    return false;
                }
                let mut i: usize = 0;
                while i < a.len()
                    invariant
                        i <= a.len() == b.len(),
                        *self == Json::Object(*a),
                        *other == Json::Object(*b),
                        forall|j: int|
                            0 <= j < i ==> (#[trigger] a@[j]).0@ == b@[j].0@ && a@[j].1@
                                == b@[j].1@,
                    decreases a.len() - i,
                {
                    proof {
                        assert(decreases_to!(*self => a@[i as int].1));
                        assert(self@->Object_0[i as int] == (a@[i as int].0@, a@[i as int].1@));
                        assert(other@->Object_0[i as int] == (b@[i as int].0@, b@[i as int].1@));
                    }
                    if !same(a[i].0.as_str(), b[i].0.as_str()) || !a[i].1.same(&b[i].1) {
                        return false;
                    }
                    i = i + 1;
                }
                proof {
                    assert(self@->Object_0 =~= other@->Object_0);
                }
                true
            },
            _ => false,
        }
    }

    /// The object with `key` set to `value`.
    pub fn with(self, key: &str, value: Json) -> (r: Json)
        requires
            self@.settable(),
        ensures
            r@ == self@.with(key@, value@),
    {
        match self {
            Json::Object(v) => {
                proof {
                    let all = members(v@);
                    assert(Json::Object(v)@->Object_0 =~= all);
                    assert(all.skip(0) =~= all);
                    assert(all.take(0) + replaced(all, key@, value@) =~= replaced(
                        all,
                        key@,
                        value@,
                    ));
                }
                Json::from_members(replace_member(v, 0, key, value))
            },
            _ => {
                let mut v: Vec<(String, Json)> = Vec::new();
                v.push((key.to_owned(), value));
                proof {
                    assert(members(v@) =~= seq![(key@, value@)]);
                }
                Json::from_members(v)
            },
        }
    }
}

/// Sets the first member named `key` among `v[from..]`, or adds one.
fn replace_member(v: Vec<(String, Json)>, from: usize, key: &str, value: Json) -> (r: Vec<
    (String, Json),
>)
    requires
        from <= v.len(),
    ensures
        members(r@) == members(v@).take(from as int) + replaced(
            members(v@).skip(from as int),
            key@,
            value@,
        ),
    decreases v.len() - from,
{
    let ghost all = members(v@);
    if from == v.len() {
        let mut out = v;
        out.push((key.to_owned(), value));
        proof {
            assert(all.skip(from as int) =~= Seq::empty());
            assert(members(out@) =~= all.take(from as int) + seq![(key@, value@)]);
        }
        return out;
    }
    if same(v[from].0.as_str(), key) {
        let mut out = v;
        let ghost before = out@;
        out.set(from, (key.to_owned(), value));
        proof {
            assert(members(out@) =~= all.update(from as int, (key@, value@)));
            assert(all.update(from as int, (key@, value@)) =~= all.take(from as int) + all.skip(
                from as int,
            ).update(0, (key@, value@)));
        }
        return out;
    }
    proof {
        assert(all.skip(from as int).drop_first() =~= all.skip(from + 1));
        assert(all.take(from as int) + (seq![all[from as int]] + replaced(
            all.skip(from + 1),
            key@,
            value@,
        )) =~= all.take(from + 1) + replaced(all.skip(from + 1), key@, value@));
    }
    replace_member(v, from + 1, key, value)
}

/// Copies of all documents of a list.
pub fn copy_all(v: &Vec<Json>) -> (r: Vec<Json>)
    ensures
        models(r@) == models(v@),
{
    let mut out: Vec<Json> = Vec::new();
    let mut i: usize = 0;
    while i < v.len()
        invariant
            i <= v.len(),
            models(out@) == models(v@).take(i as int),
        decreases v.len() - i,
    {
        let ghost before = out@;
        let one: Json = v[i].copy();
        out.push(one);
        proof {
            assert(models(out@) =~= models(before).push(one@));
            assert(models(v@).take(i + 1) =~= models(v@).take(i as int).push(v@[i as int]@));
        }
        i = i + 1;
    }
    proof {
        assert(models(v@).take(v@.len() as int) =~= models(v@));
    }
    out
}

/// A character of a text as it is printed: quotes, backslashes and control
/// characters are escaped.
pub open spec fn escaped(c: char) -> Seq<char> {
    if c == '"' || c == '\\' {
        seq!['\\', c]
    } else if c == '\u{8}' {
        seq!['\\', 'b']
    } else if c == '\t' {
        seq!['\\', 't']
    } else if c == '\n' {
        seq!['\\', 'n']
    } else if c == '\u{c}' {
        seq!['\\', 'f']
    } else if c == '\r' {
        seq!['\\', 'r']
    } else if (c as u32) < 32 {
        seq!['\\', 'u', '0', '0', hex_char(c as int / 16), hex_char(c as int % 16)]
    } else {
        seq![c]
    }
}

/// The characters of a text as they are printed.
pub open spec fn escaped_all(s: Seq<char>) -> Seq<char>
    decreases s.len(),
{
    if s.len() == 0 {
        s
    } else {
        escaped_all(s.drop_last()) + escaped(s.last())
    }
}

/// A text as it is printed: in quotes.
pub open spec fn quoted(s: Seq<char>) -> Seq<char> {
    seq!['"'] + escaped_all(s) + seq!['"']
}

/// Calls `serde_json::to_string` on a text. Printing a text cannot fail: it
/// gives the text in quotes, with its quotes, backslashes and control
/// characters escaped.
#[verifier::external_body]
fn quote(s: &str) -> (r: String)
    ensures
        r@ == quoted(s@),
{
    serde_json::to_string(s).unwrap_or_default()
}

/// The compact print of a document.
pub open spec fn printed(j: JsonModel) -> Seq<char>
    decreases j,
{
    match j {
        JsonModel::Null => "null"@,
        JsonModel::Bool(b) => if b {
            "true"@
        } else {
            "false"@
        },
        JsonModel::Number(NumberModel::Unsigned(n)) => decimal(n as nat),
        JsonModel::Number(NumberModel::Negative(n)) => signed_decimal(n as int),
        JsonModel::Number(NumberModel::Float(s)) => s,
        JsonModel::Text(s) => quoted(s),
        JsonModel::Array(v) => "["@ + joined(printed_all(v), ","@) + "]"@,
        JsonModel::Object(v) => "{"@ + joined(texts_of(printed_members(v)), ","@) + "}"@,
    }
}

/// The prints of the elements of a list.
pub open spec fn printed_all(v: Seq<JsonModel>) -> Seq<Seq<char>>
    decreases v,
{
    if v.len() == 0 {
        Seq::<Seq<char>>::empty()
    } else {
        printed_all(v.subrange(0, v.len() - 1)).push(printed(v[v.len() - 1]))
    }
}

/// The place of a name among others: behind all that are not greater.
pub open spec fn place_among(v: Seq<(Seq<char>, Seq<char>)>, name: Seq<char>) -> int
    decreases v.len(),
{
    if v.len() == 0 || !text_less(name, v.last().0) {
        v.len() as int
    } else {
        place_among(v.drop_last(), name)
    }
}

/// The texts of prints.
pub open spec fn texts_of(v: Seq<(Seq<char>, Seq<char>)>) -> Seq<Seq<char>> {
    Seq::new(v.len(), |i: int| v[i].1)
}

/// The prints of the members of an object, each with its name, by their names.
pub open spec fn printed_members(v: Seq<(Seq<char>, JsonModel)>) -> Seq<(Seq<char>, Seq<char>)>
    decreases v,
{
    if v.len() == 0 {
        Seq::empty()
    } else {
        let last = v[v.len() - 1];
        let before = printed_members(v.subrange(0, v.len() - 1));
        before.insert(
            place_among(before, last.0),
            (last.0, quoted(last.0) + ":"@ + printed(last.1)),
        )
    }
}

/// Names and texts stand by their names.
pub open spec fn is_by_name(v: Seq<(Seq<char>, Seq<char>)>) -> bool {
    forall|i: int, j: int|
        0 <= i < j < v.len() ==> !text_less((#[trigger] v[j]).0, (#[trigger] v[i]).0)
}

proof fn place_is_between(v: Seq<(Seq<char>, Seq<char>)>, name: Seq<char>)
    requires
        is_by_name(v),
    ensures
        0 <= place_among(v, name) <= v.len(),
        forall|i: int| 0 <= i < place_among(v, name) ==> !text_less(name, (#[trigger] v[i]).0),
        forall|i: int| place_among(v, name) <= i < v.len() ==> text_less(name, (#[trigger] v[i]).0),
    decreases v.len(),
{
    if v.len() > 0 {
        if text_less(name, v.last().0) {
            assert(is_by_name(v.drop_last())) by {
                assert forall|i: int, j: int| 0 <= i < j < v.drop_last().len() implies !text_less(
                    (#[trigger] v.drop_last()[j]).0,
                    (#[trigger] v.drop_last()[i]).0,
                ) by {
                    assert(v.drop_last()[j] == v[j] && v.drop_last()[i] == v[i]);
                }
            }
            place_is_between(v.drop_last(), name);
            let at = place_among(v, name);
            assert forall|i: int| 0 <= i < at implies !text_less(name, (#[trigger] v[i]).0) by {
                assert(v.drop_last()[i] == v[i]);
            }
            assert forall|i: int| at <= i < v.len() implies text_less(name, (#[trigger] v[i]).0) by {
                if i < v.len() - 1 {
                    assert(v.drop_last()[i] == v[i]);
                }
            }
        } else {
            assert forall|i: int| 0 <= i < v.len() implies !text_less(name, (#[trigger] v[i]).0) by {
                let last = v[v.len() - 1];
                if text_less(name, v[i].0) {
                    text_less_total(name, last.0);
                    text_less_total(last.0, v[i].0);
                    if last.0 != name {
                        text_less_transitive(last.0, name, v[i].0);
                    }
                    if i < v.len() - 1 {
                        assert(!text_less(v[v.len() - 1].0, v[i].0));
                    }
                }
            }
        }
    }
}

/// The members of an object are printed by their names, all of them.
pub proof fn members_are_printed_by_name(v: Seq<(Seq<char>, JsonModel)>)
    ensures
        is_by_name(printed_members(v)),
        printed_members(v).len() == v.len(),
    decreases v.len(),
{
    if v.len() > 0 {
        let last = v[v.len() - 1];
        let before = printed_members(v.subrange(0, v.len() - 1));
        members_are_printed_by_name(v.subrange(0, v.len() - 1));
        place_is_between(before, last.0);
        let at = place_among(before, last.0);
        let all = printed_members(v);
        assert forall|i: int, j: int| 0 <= i < j < all.len() implies !text_less(
            (#[trigger] all[j]).0,
            (#[trigger] all[i]).0,
        ) by {
            let a = if i < at {
                i
            } else {
                i - 1
            };
            let b = if j < at {
                j
            } else {
                j - 1
            };
            if i == at {
                assert(all[j] == before[j - 1]);
                text_less_total(last.0, before[j - 1].0);
            } else if j == at {
                assert(all[i] == before[i]);
            } else {
                assert(all[i] == before[a] && all[j] == before[b]);
            }
        }
    }
}

/// The views of prints with their names.
pub open spec fn print_views(v: Seq<(String, String)>) -> Seq<(Seq<char>, Seq<char>)> {
    Seq::new(v.len(), |i: int| (v[i].0@, v[i].1@))
}

fn put_by_name(v: &mut Vec<(String, String)>, name: String, text: String)
    ensures
        print_views(final(v)@) == print_views(old(v)@).insert(
            place_among(print_views(old(v)@), name@),
            (name@, text@),
        ),
        final(v)@.len() == old(v)@.len() + 1,
{
    let ghost all = print_views(v@);
    let ghost before = v@;
    let mut at: usize = v.len();
    proof {
        assert(all.take(at as int) =~= all);
    }
    while at > 0 && less_text(name.as_str(), v[at - 1].0.as_str())
        invariant
            at <= v.len(),
            all == print_views(v@),
            place_among(all, name@) == place_among(all.take(at as int), name@),
        decreases at,
    {
        proof {
            assert(all.take(at as int).last() == all[at - 1]);
            assert(all.take(at as int).drop_last() =~= all.take(at - 1));
        }
        at = at - 1;
    }
    proof {
        if at > 0 {
            assert(all.take(at as int).last() == all[at - 1]);
        }
        assert(place_among(all, name@) == at);
    }
    let ghost one = (name@, text@);
    v.insert(at, (name, text));
    proof {
        assert(print_views(v@) =~= all.insert(at as int, one));
    }
}

fn list_texts(v: &Vec<(String, String)>) -> (r: Vec<String>)
    ensures
        crate::text::views(r@) == texts_of(print_views(v@)),
{
    let mut out: Vec<String> = Vec::new();
    let mut i: usize = 0;
    while i < v.len()
        invariant
            i <= v.len(),
            out@.len() == i,
            forall|j: int| 0 <= j < i ==> (#[trigger] out@[j])@ == v@[j].1@,
        decreases v.len() - i,
    {
        out.push(v[i].1.clone());
        i = i + 1;
    }
    proof {
        assert(crate::text::views(out@) =~= texts_of(print_views(v@)));
    }
    out
}

impl Json {
    /// Prints the document without white space.
    pub fn print(&self) -> (r: String)
        ensures
            r@ == printed(self@),
        decreases self,
    {
        match self {
            Json::Null => "null".to_owned(),
            Json::Bool(b) => if *b {
                "true".to_owned()
            } else {
                "false".to_owned()
            },
            Json::Number(n) => match n {
                Number::Unsigned(n) => to_decimal(*n),
                Number::Negative(n) => to_signed_decimal(*n),
                Number::Float(s) => s.clone(),
            },
            Json::Text(s) => quote(s.as_str()),
            Json::Array(v) => {
                let ghost all = self@->Array_0;
                let mut parts: Vec<String> = Vec::new();
                let mut i: usize = 0;
                proof {
                    assert(all.take(0) =~= Seq::empty());
                    assert(crate::text::views(parts@) =~= Seq::empty());
                }
                while i < v.len()
                    invariant
                        i <= v.len(),
                        *self == Json::Array(*v),
                        all == self@->Array_0,
                        crate::text::views(parts@) == printed_all(all.take(i as int)),
                    decreases v.len() - i,
                {
                    proof {
                        assert(decreases_to!(self->Array_0 => v@[i as int]));
                    }
                    let ghost before = parts@;
                    let one: String = v[i].print();
                    parts.push(one);
                    proof {
                        assert(all.take(i + 1).subrange(0, i as int) =~= all.take(i as int));
                        assert(crate::text::views(parts@) =~= crate::text::views(before).push(one@));
                    }
                    i = i + 1;
                }
                proof {
                    assert(all.take(v@.len() as int) =~= all);
                }
                let inner: String = crate::text::join(&parts, ",");
                crate::text::cat3("[", inner.as_str(), "]")
            },
            Json::Object(v) => {
                let ghost all = self@->Object_0;
                let mut prints: Vec<(String, String)> = Vec::new();
                let mut i: usize = 0;
                proof {
                    assert(all.take(0) =~= Seq::empty());
                    assert(print_views(prints@) =~= Seq::empty());
                }
                while i < v.len()
                    invariant
                        i <= v.len(),
                        *self == Json::Object(*v),
                        all == self@->Object_0,
                        print_views(prints@) == printed_members(all.take(i as int)),
                    decreases v.len() - i,
                {
                    proof {
                        assert(decreases_to!(self->Object_0 => v@[i as int].1));
                    }
                    let name: String = quote(v[i].0.as_str());
                    let value: String = v[i].1.print();
                    let one: String = crate::text::cat3(name.as_str(), ":", value.as_str());
                    put_by_name(&mut prints, v[i].0.clone(), one);
                    proof {
                        assert(all.take(i + 1).subrange(0, i as int) =~= all.take(i as int));
                        assert(all.take(i + 1)[i as int] == (v@[i as int].0@, v@[i as int].1@));
                    }
                    i = i + 1;
                }
                proof {
                    assert(all.take(v@.len() as int) =~= all);
                }
                let parts: Vec<String> = list_texts(&prints);
                let inner: String = crate::text::join(&parts, ",");
                crate::text::cat3("{", inner.as_str(), "}")
            },
        }
    }
}

/// The text under a key of the document that a text holds: what
/// `serde_json::from_str` reads, where it reads a document, looked up by
/// `serde_json::Value::get` and taken by `serde_json::Value::as_str`.
pub uninterp spec fn text_member(source: Seq<char>, key: Seq<char>) -> Option<Seq<char>>;

/// Calls `serde_json::from_str` on a text and takes the text under a key of
/// what it reads. The grammar of documents takes pages, so the result is only
/// named, as a function of the two texts.
#[verifier::external_body]
pub(crate) fn read_text_member(source: &str, key: &str) -> (r: Option<String>)
    ensures
        crate::text::opt(r) == text_member(source@, key@),
{
    let value: serde_json::Value = serde_json::from_str(source).ok()?;
    value.get(key)?.as_str().map(|text| text.to_owned())
}

/// Whether a text holds a document that is an object: what
/// `serde_json::from_str` reads, asked by `serde_json::Value::is_object`.
pub uninterp spec fn holds_object(source: Seq<char>) -> bool;

/// Calls `serde_json::from_str` on a text and asks whether it reads an object.
/// The grammar of documents takes pages, so the result is only named, as a
/// function of the text.
#[verifier::external_body]
pub(crate) fn reads_object(source: &str) -> (r: bool)
    ensures
        r == holds_object(source@),
{
    serde_json::from_str::<serde_json::Value>(source).is_ok_and(|value| value.is_object())
}

/// The texts of the list that a text holds: what `serde_json::from_str` reads
/// as a list of texts, where it reads one.
pub uninterp spec fn text_items(source: Seq<char>) -> Option<Seq<Seq<char>>>;

/// The views of an optional list of texts.
pub open spec fn opt_texts(v: Option<Vec<String>>) -> Option<Seq<Seq<char>>> {
    match v {
        Some(list) => Some(crate::text::views(list@)),
        None => None,
    }
}

/// Calls `serde_json::from_str` to read a text as a list of texts. The grammar
/// of documents takes pages, so the result is only named, as a function of the
/// text.
#[verifier::external_body]
pub(crate) fn read_text_items(source: &str) -> (r: Option<Vec<String>>)
    ensures
        opt_texts(r) == text_items(source@),
{
    serde_json::from_str::<Vec<String>>(source).ok()
}

} // verus!
