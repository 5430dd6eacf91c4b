//! JSON values, and their text as `serde_json` reads and writes it.

use vstd::prelude::*;

use crate::table::{
    lemma_map_len, lemma_row_in_map, lemma_table_rows, names_distinct, rows_map, Table,
};
use crate::text::same_text;

verus! {

/// A JSON number as `serde_json` holds it.
#[verifier::external_type_specification]
#[verifier::external_body]
pub struct ExNumber(serde_json::Number);

/// A JSON value as `serde_json` holds it.
#[verifier::external_type_specification]
#[verifier::external_body]
pub struct ExValue(serde_json::Value);

/// The clone of a `serde_json::Number` is the same number: the type's only field is copied.
pub assume_specification[ <serde_json::Number as Clone>::clone ](n: &serde_json::Number) -> (r:
    serde_json::Number)
    ensures
        r == *n,
;

/// The integer between zero and `u64::MAX` that a `serde_json::Number` is, if it is one.
pub uninterp spec fn number_u64(number: serde_json::Number) -> Option<u64>;

/// `Number::as_u64` tells an integer between zero and `u64::MAX` from any other number, by the
/// number alone.
pub assume_specification[ serde_json::Number::as_u64 ](n: &serde_json::Number) -> (r: Option<u64>)
    ensures
        r == number_u64(*n),
;

/// `Number::from`: the number made from an unsigned integer is that integer.
#[verifier::external_body]
fn unsigned_number(n: u64) -> (number: serde_json::Number)
    ensures
        number_u64(number) == Some(n),
{
    serde_json::Number::from(n)
}

/// The integer between `i64::MIN` and `i64::MAX` that a `serde_json::Number` is, if it is one.
pub uninterp spec fn number_i64(number: serde_json::Number) -> Option<i64>;

/// `Number::as_i64` tells an integer between `i64::MIN` and `i64::MAX` from any other number, by
/// the number alone.
pub assume_specification[ serde_json::Number::as_i64 ](n: &serde_json::Number) -> (r: Option<i64>)
    ensures
        r == number_i64(*n),
;

/// `Number::from`: the number made from a negative integer is that integer, and no unsigned one.
#[verifier::external_body]
fn negative_number(n: i64) -> (number: serde_json::Number)
    requires
        n < 0,
    ensures
        number_u64(number) is None,
        number_i64(number) == Some(n),
{
    serde_json::Number::from(n)
}

/// An integer below zero.
#[derive(Debug)]
pub struct NegativeInteger {
    value: i64,
}

impl View for NegativeInteger {
    type V = i64;

    closed spec fn view(&self) -> i64 {
        self.value
    }
}

impl NegativeInteger {
    #[verifier::type_invariant]
    spec fn well_formed(self) -> bool {
        self.value < 0
    }

    /// The integer `value`, where it lies below zero.
    pub fn new(value: i64) -> (r: Option<Self>)
        ensures
            r is Some <==> value < 0,
            r matches Some(n) ==> n@ == value,
    {
        if value < 0 {
            Some(NegativeInteger { value })
        } else {
            None
        }
    }

    /// The integer.
    pub fn get(&self) -> (value: i64)
        ensures
            value == self@,
            value < 0,
    {
        proof {
            use_type_invariant(self);
        }
        self.value
    }

    fn copy(&self) -> (copy: Self)
        ensures
            copy@ == self@,
    {
        proof {
            use_type_invariant(self);
        }
        NegativeInteger { value: self.value }
    }
}

/// A `serde_json::Number` that is neither an integer between zero and `u64::MAX` nor one between
/// `i64::MIN` and minus one.
pub open spec fn is_other(number: serde_json::Number) -> bool {
    &&& number_u64(number) is None
    &&& !(number_i64(number) matches Some(n) && n < 0)
}

/// A number that is no integer between `i64::MIN` and `u64::MAX`: it has a fraction or is out of
/// range. Nothing here reads it; it is carried from the text that holds it to the text that it
/// goes to.
#[derive(Debug)]
pub struct OtherNumber {
    number: serde_json::Number,
}

impl View for OtherNumber {
    type V = serde_json::Number;

    closed spec fn view(&self) -> serde_json::Number {
        self.number
    }
}

/// A JSON value.
#[derive(Debug)]
pub enum Json {
    Null,
    Bool(bool),
    /// An integer between zero and `u64::MAX`.
    Unsigned(u64),
    /// An integer between `i64::MIN` and minus one.
    Negative(NegativeInteger),
    /// Any other number.
    Number(OtherNumber),
    Str(String),
    Array(Vec<Json>),
    Object(Table<Json>),
}

/// What a JSON value is: an object is the map from its names to their values.
pub enum JsonV {
    Null,
    Bool(bool),
    Unsigned(u64),
    Negative(i64),
    Number(serde_json::Number),
    Str(Seq<char>),
    Array(Seq<JsonV>),
    Object(Map<Seq<char>, JsonV>),
}

/// The member of `json` under `name`; only an object has members.
pub open spec fn member(json: JsonV, name: Seq<char>) -> Option<JsonV> {
    match json {
        JsonV::Object(members) => if members.contains_key(name) {
            Some(members[name])
        } else {
            None
        },
        _ => None,
    }
}

/// The object `json` with `value` as its member under `name`.
pub open spec fn with_member(json: JsonV, name: Seq<char>, value: JsonV) -> JsonV {
    match json {
        JsonV::Object(members) => JsonV::Object(members.insert(name, value)),
        _ => json,
    }
}

/// The unsigned integer that `json` is.
pub open spec fn unsigned(json: Option<JsonV>) -> Option<u64> {
    match json {
        Some(JsonV::Unsigned(n)) => Some(n),
        _ => None,
    }
}

impl View for Json {
    type V = JsonV;

    open spec fn view(&self) -> JsonV {
        json_view(*self)
    }
}

/// What a JSON value is.
pub open spec fn json_view(json: Json) -> JsonV
    decreases json,
{
    match json {
        Json::Null => JsonV::Null,
        Json::Bool(b) => JsonV::Bool(b),
        Json::Unsigned(n) => JsonV::Unsigned(n),
        Json::Negative(n) => JsonV::Negative(n@),
        Json::Number(n) => JsonV::Number(n@),
        Json::Str(s) => JsonV::Str(s@),
        Json::Array(items) => JsonV::Array(items_view(items@)),
        Json::Object(members) => JsonV::Object(members_view(members)),
    }
}

/// What the items of an array are.
pub open spec fn items_view(items: Seq<Json>) -> Seq<JsonV>
    decreases items,
{
    if items.len() == 0 {
        Seq::empty()
    } else {
        items_view(items.drop_last()).push(json_view(items.last()))
    }
}

/// What the members of an object are.
pub closed spec fn members_view(members: Table<Json>) -> Map<Seq<char>, JsonV>
    decreases members,
{
    rows_view(members.rows@)
}

spec fn rows_view(rows: Seq<(String, Json)>) -> Map<Seq<char>, JsonV>
    decreases rows,
{
    if rows.len() == 0 {
        Map::empty()
    } else {
        rows_view(rows.drop_last()).insert(rows.last().0@, json_view(rows.last().1))
    }
}

/// An array is the sequence of what its items are.
pub proof fn lemma_items_view(items: Seq<Json>)
    ensures
        items_view(items) == items.map_values(|j: Json| j@),
    decreases items.len(),
{
    if items.len() > 0 {
        lemma_items_view(items.drop_last());
    }
    assert(items_view(items) =~= items.map_values(|j: Json| j@));
}

proof fn lemma_rows_view(rows: Seq<(String, Json)>)
    ensures
        rows_view(rows) == rows_map(rows).map_values(|j: Json| j@),
    decreases rows.len(),
{
    if rows.len() > 0 {
        lemma_rows_view(rows.drop_last());
    }
    assert(rows_view(rows) =~= rows_map(rows).map_values(|j: Json| j@));
}

/// An object is the map from its names to what their values are.
pub proof fn lemma_members_view(members: Table<Json>)
    ensures
        members_view(members) == members@.map_values(|j: Json| j@),
{
    lemma_table_rows(members);
    lemma_rows_view(members.rows@);
}

impl OtherNumber {
    #[verifier::type_invariant]
    spec fn well_formed(self) -> bool {
        is_other(self.number)
    }

    fn copy(&self) -> (copy: OtherNumber)
        ensures
            copy@ == self@,
    {
        OtherNumber { number: self.number() }
    }

    fn number(&self) -> (number: serde_json::Number)
        ensures
            number == self@,
            is_other(number),
    {
        proof {
            use_type_invariant(self);
        }
        self.number.clone()
    }
}

impl Json {
    /// An object without members.
    pub fn object() -> (json: Json)
        ensures
            json@ == JsonV::Object(Map::empty()),
    {
        let members: Table<Json> = Table::new();
        proof {
            lemma_members_view(members);
            assert(members@.map_values(|j: Json| j@) =~= Map::empty());
        }
        Json::Object(members)
    }

    /// The member under `name`; a value that is no object has none.
    pub fn get(&self, name: &str) -> (value: Option<&Json>)
        ensures
            (match value {
                Some(v) => member(self@, name@) == Some(v@),
                None => member(self@, name@) is None,
            }),
    {
        match self {
            Json::Object(members) => {
                proof {
                    lemma_members_view(*members);
                }
                members.get(name)
            },
            _ => None,
        }
    }

    /// Whether the value is `null`.
    pub fn is_null(&self) -> (r: bool)
        ensures
            r == (self@ == JsonV::Null),
    {
        match self {
            Json::Null => true,
            _ => false,
        }
    }

    /// The value as an unsigned integer.
    pub fn as_u64(&self) -> (n: Option<u64>)
        ensures
            n == unsigned(Some(self@)),
    {
        match self {
            Json::Unsigned(n) => Some(*n),
            _ => None,
        }
    }

    /// Whether the value is the string `text`.
    pub fn is_str(&self, text: &str) -> (r: bool)
        ensures
            r == (self@ == JsonV::Str(text@)),
    {
        match self {
            Json::Str(s) => same_text(s.as_str(), text),
            _ => false,
        }
    }

    /// Puts `value` under `name` into an object.
    pub fn set(&mut self, name: &str, value: Json)
        requires
            old(self)@ is Object,
        ensures
            final(self)@ == with_member(old(self)@, name@, value@),
    {
        match self {
            Json::Object(members) => {
                proof {
                    lemma_members_view(*members);
                }
                let ghost before = members@;
                let _ = members.insert(name.to_owned(), value);
                proof {
                    lemma_members_view(*members);
                    assert(members@.map_values(|j: Json| j@) =~= before.map_values(|j: Json| j@).insert(
                        name@,
                        value@,
                    ));
                }
            },
            _ => {},
        }
    }
}

impl Clone for Json {
    fn clone(&self) -> (copy: Self)
        ensures
            copy@ == self@,
        decreases self,
    {
        match self {
            Json::Null => Json::Null,
            Json::Bool(b) => Json::Bool(*b),
            Json::Unsigned(n) => Json::Unsigned(*n),
            Json::Negative(n) => Json::Negative(n.copy()),
            Json::Number(n) => Json::Number(n.copy()),
            Json::Str(s) => Json::Str(s.clone()),
            Json::Array(items) => {
                let mut copies: Vec<Json> = Vec::new();
                let mut i: usize = 0;
                while i < items.len()
                    invariant
                        i <= items@.len(),
                        *self == Json::Array(*items),
                        copies@.len() == i,
                        forall|j: int| 0 <= j < i ==> #[trigger] copies@[j]@ == items@[j]@,
                    decreases items@.len() - i,
                {
                    assert(decreases_to!(*self => self->Array_0));
                    assert(decreases_to!(*items => items@));
                    assert(decreases_to!(items@ => items@[i as int]));
                    copies.push(items[i].clone());
                    i = i + 1;
                }
                proof {
                    lemma_items_view(items@);
                    lemma_items_view(copies@);
                    assert(copies@.map_values(|j: Json| j@) =~= items@.map_values(|j: Json| j@));
                }
                Json::Array(copies)
            },
            Json::Object(members) => {
                let mut rows: Vec<(String, Json)> = Vec::new();
                let mut i: usize = 0;
                while i < members.rows.len()
                    invariant
                        i <= members.rows@.len(),
                        *self == Json::Object(*members),
                        rows@.len() == i,
                        forall|j: int|
                            #![trigger rows@[j]]
                            0 <= j < i ==> rows@[j].0 == members.rows@[j].0 && rows@[j].1@
                                == members.rows@[j].1@,
                    decreases members.rows@.len() - i,
                {
                    let row: &(String, Json) = &members.rows[i];
                    assert(decreases_to!(*self => self->Object_0));
                    assert(decreases_to!(*members => members.rows));
                    assert(decreases_to!(members.rows => members.rows@));
                    assert(decreases_to!(members.rows@ => members.rows@[i as int]));
                    assert(decreases_to!(members.rows@[i as int] => members.rows@[i as int].1));
                    rows.push((row.0.clone(), row.1.clone()));
                    i = i + 1;
                }
                proof {
                    use_type_invariant(members);
                    lemma_rows_agree(rows@, members.rows@);
                }
                Json::Object(Table { rows })
            },
        }
    }
}

/// Rows with the same names and values that are the same are the same members.
proof fn lemma_rows_agree(a: Seq<(String, Json)>, b: Seq<(String, Json)>)
    requires
        a.len() == b.len(),
        forall|j: int| #![trigger a[j]] 0 <= j < a.len() ==> a[j].0 == b[j].0 && a[j].1@ == b[j].1@,
    ensures
        rows_view(a) == rows_view(b),
    decreases a.len(),
{
    if a.len() > 0 {
        assert forall|j: int|
            #![trigger a.drop_last()[j]]
            0 <= j < a.drop_last().len() implies a.drop_last()[j].0 == b.drop_last()[j].0
            && a.drop_last()[j].1@ == b.drop_last()[j].1@ by {
            assert(a[j].0 == b[j].0);
        }
        lemma_rows_agree(a.drop_last(), b.drop_last());
        assert(a[a.len() - 1].0 == b[a.len() - 1].0);
    }
}

/// The JSON value that a `serde_json::Value` holds.
pub uninterp spec fn value_json(value: serde_json::Value) -> JsonV;

/// The JSON value that `serde_json` reads from a text, where it reads one.
pub uninterp spec fn text_json(text: Seq<char>) -> Option<JsonV>;

/// The compact text that `serde_json` writes for a JSON value.
pub uninterp spec fn json_text(json: JsonV) -> Seq<char>;

/// One layer of a JSON value: the values inside an array or an object stay as `serde_json` has
/// them.
pub enum Layer {
    Null,
    Bool(bool),
    Number(serde_json::Number),
    Str(String),
    Array(Vec<serde_json::Value>),
    Object(Vec<(String, serde_json::Value)>),
}

/// The JSON value that a layer is the outside of.
pub open spec fn layer_json(layer: Layer) -> JsonV {
    match layer {
        Layer::Null => JsonV::Null,
        Layer::Bool(b) => JsonV::Bool(b),
        Layer::Number(number) => match number_u64(number) {
            Some(n) => JsonV::Unsigned(n),
            None => match number_i64(number) {
                Some(n) if n < 0 => JsonV::Negative(n),
                _ => JsonV::Number(number),
            },
        },
        Layer::Str(s) => JsonV::Str(s@),
        Layer::Array(items) => JsonV::Array(
            items@.map_values(|v: serde_json::Value| value_json(v)),
        ),
        Layer::Object(rows) => JsonV::Object(
            rows_map(rows@).map_values(|v: serde_json::Value| value_json(v)),
        ),
    }
}

/// The names of an object's layer are distinct.
pub open spec fn layer_distinct(layer: Layer) -> bool {
    layer matches Layer::Object(rows) ==> names_distinct(rows@)
}

/// Tells the variants of `serde_json::Value` apart and hands out what each holds. The names of a
/// `serde_json::Map` are distinct.
#[verifier::external_body]
fn open_value(value: serde_json::Value) -> (layer: Layer)
    ensures
        layer_json(layer) == value_json(value),
        layer_distinct(layer),
{
    match value {
        serde_json::Value::Null => Layer::Null,
        serde_json::Value::Bool(b) => Layer::Bool(b),
        serde_json::Value::Number(number) => Layer::Number(number),
        serde_json::Value::String(s) => Layer::Str(s),
        serde_json::Value::Array(items) => Layer::Array(items),
        serde_json::Value::Object(members) => Layer::Object(members.into_iter().collect()),
    }
}

/// Builds the `serde_json::Value` of a layer, variant by variant. A `serde_json::Map` made from
/// rows with distinct names holds those rows.
#[verifier::external_body]
fn close_value(layer: Layer) -> (value: serde_json::Value)
    requires
        layer_distinct(layer),
    ensures
        value_json(value) == layer_json(layer),
{
    match layer {
        Layer::Null => serde_json::Value::Null,
        Layer::Bool(b) => serde_json::Value::Bool(b),
        Layer::Number(number) => serde_json::Value::Number(number),
        Layer::Str(s) => serde_json::Value::String(s),
        Layer::Array(items) => serde_json::Value::Array(items),
        Layer::Object(rows) => serde_json::Value::Object(rows.into_iter().collect()),
    }
}

/// `serde_json::from_str`, reading a `serde_json::Value`: what it reads, and whether it reads
/// anything, is a matter of the text alone.
#[verifier::external_body]
fn read_value(text: &str) -> (value: Option<serde_json::Value>)
    ensures
        (match value {
            Some(v) => text_json(text@) == Some(value_json(v)),
            None => text_json(text@) is None,
        }),
{
    serde_json::from_str::<serde_json::Value>(text).ok()
}

/// The name that `serde_json` keeps for raw JSON text, where its feature `raw_value` is on.
pub open spec fn raw_name() -> Seq<char> {
    "$serde_json::private::RawValue"@
}

/// Every number in `json` is an integer between `i64::MIN` and `u64::MAX`, none of its objects has
/// the name for raw JSON text, and its arrays and objects stand at most `depth` deep in each
/// other.
pub open spec fn plain_within(json: JsonV, depth: nat) -> bool
    decreases depth,
{
    match json {
        JsonV::Number(_) => false,
        JsonV::Array(items) => depth > 0 && forall|i: int|
            0 <= i < items.len() ==> plain_within(#[trigger] items[i], (depth - 1) as nat),
        JsonV::Object(members) => depth > 0 && !members.contains_key(raw_name()) && forall|
            k: Seq<char>,
        | #[trigger]
            members.contains_key(k) ==> plain_within(members[k], (depth - 1) as nat),
        _ => true,
    }
}

/// How the text of `json` reads back. A plain value within the depth that `serde_json` reads
/// comes back whole. Whatever an object's text is read as has the object's names, and its
/// integers and strings; but an object whose only name is the one for raw JSON text is
/// read as what that text holds.
pub open spec fn reads_back(json: JsonV, read: Option<JsonV>) -> bool {
    &&& plain_within(json, 127) ==> read == Some(json)
    &&& match (json, read) {
        (JsonV::Object(members), Some(again)) => members.dom() == set![raw_name()] || {
            &&& again is Object
            &&& again->Object_0.dom() == members.dom()
            &&& forall|k: Seq<char>| #[trigger]
                members.contains_key(k) && (members[k] is Unsigned || members[k] is Negative
                    || members[k] is Str) ==> again->Object_0[k] == members[k]
        },
        _ => true,
    }
}

/// `Value::to_string`: the compact text is a matter of the JSON value alone, for a
/// `serde_json::Map` walks its names in their order. A line feed in a string is written as an
/// escape, and there is none between tokens. A number with a fraction is not said to read back
/// the same: its last place may change. Nor is an object with
/// the name for raw JSON text: where that name comes first, `from_str` reads the string under it
/// as JSON text, or fails if there are other names.
#[verifier::external_body]
fn write_value(value: &serde_json::Value) -> (text: String)
    ensures
        text@ == json_text(value_json(*value)),
        !text@.contains('\n'),
        reads_back(value_json(*value), text_json(text@)),
{
    value.to_string()
}

impl Json {
    /// The JSON value that a `serde_json::Value` holds.
    pub fn from_value(value: serde_json::Value) -> (json: Json)
        ensures
            json@ == value_json(value),
        decreases value_json(value),
    {
        match open_value(value) {
            Layer::Null => Json::Null,
            Layer::Bool(b) => Json::Bool(b),
            Layer::Number(number) => match number.as_u64() {
                Some(n) => Json::Unsigned(n),
                None => {
                    let negative: Option<NegativeInteger> = match number.as_i64() {
                        Some(n) => NegativeInteger::new(n),
                        None => None,
                    };
                    match negative {
                        Some(n) => Json::Negative(n),
                        None => Json::Number(OtherNumber { number }),
                    }
                },
            },
            Layer::Str(s) => Json::Str(s),
            Layer::Array(items) => {
                let ghost all = items@;
                let mut done: Vec<Json> = Vec::new();
                for item in it: items
                    invariant
                        it.seq() == all,
                        done@.len() == it.index(),
                        value_json(value) == JsonV::Array(
                            all.map_values(|v: serde_json::Value| value_json(v)),
                        ),
                        forall|j: int| 0 <= j < done@.len() ==> #[trigger] done@[j]@ == value_json(all[j]),
                {
                    proof {
                        let whole = value_json(value);
                        assert(decreases_to!(whole => whole->Array_0));
                        assert(decreases_to!(whole->Array_0 => whole->Array_0[it.index() as int]));
                    }
                    done.push(Json::from_value(item));
                }
                proof {
                    lemma_items_view(done@);
                    assert(done@.map_values(|j: Json| j@) =~= all.map_values(
                        |v: serde_json::Value| value_json(v),
                    ));
                }
                Json::Array(done)
            },
            Layer::Object(rows) => {
                let ghost all = rows@;
                let mut done: Vec<(String, Json)> = Vec::new();
                for row in it: rows
                    invariant
                        it.seq() == all,
                        names_distinct(all),
                        done@.len() == it.index(),
                        value_json(value) == JsonV::Object(
                            rows_map(all).map_values(|v: serde_json::Value| value_json(v)),
                        ),
                        forall|j: int|
                            #![trigger done@[j]]
                            0 <= j < done@.len() ==> done@[j].0 == all[j].0 && done@[j].1@
                                == value_json(all[j].1),
                {
                    proof {
                        let whole = value_json(value);
                        let k = row.0@;
                        assert(all[it.index() as int] == row);
                        lemma_row_in_map(all, it.index() as int);
                        lemma_map_len(all);
                        assert(whole->Object_0.dom() =~= rows_map(all).dom());
                        assert(decreases_to!(whole => whole->Object_0));
                        assert(decreases_to!(whole->Object_0 => whole->Object_0[k]));
                    }
                    done.push((row.0, Json::from_value(row.1)));
                }
                proof {
                    lemma_rows_of_values(done@, all);
                }
                Json::Object(Table { rows: done })
            },
        }
    }

    /// The `serde_json::Value` that holds this JSON value.
    pub fn to_value(&self) -> (value: serde_json::Value)
        ensures
            value_json(value) == self@,
        decreases self,
    {
        let layer: Layer = match self {
            Json::Null => Layer::Null,
            Json::Bool(b) => Layer::Bool(*b),
            Json::Unsigned(n) => Layer::Number(unsigned_number(*n)),
            Json::Negative(n) => Layer::Number(negative_number(n.get())),
            Json::Number(n) => Layer::Number(n.number()),
            Json::Str(s) => Layer::Str(s.clone()),
            Json::Array(items) => {
                let mut done: Vec<serde_json::Value> = Vec::new();
                let mut i: usize = 0;
                while i < items.len()
                    invariant
                        i <= items@.len(),
                        *self == Json::Array(*items),
                        done@.len() == i,
                        forall|j: int| 0 <= j < i ==> value_json(#[trigger] done@[j]) == items@[j]@,
                    decreases items@.len() - i,
                {
                    assert(decreases_to!(*self => self->Array_0));
                    assert(decreases_to!(*items => items@));
                    assert(decreases_to!(items@ => items@[i as int]));
                    done.push(items[i].to_value());
                    i = i + 1;
                }
                proof {
                    lemma_items_view(items@);
                    assert(done@.map_values(|v: serde_json::Value| value_json(v))
                        =~= items@.map_values(|j: Json| j@));
                }
                Layer::Array(done)
            },
            Json::Object(members) => {
                let mut done: Vec<(String, serde_json::Value)> = Vec::new();
                let mut i: usize = 0;
                while i < members.rows.len()
                    invariant
                        i <= members.rows@.len(),
                        *self == Json::Object(*members),
                        done@.len() == i,
                        forall|j: int|
                            #![trigger done@[j]]
                            0 <= j < i ==> done@[j].0 == members.rows@[j].0 && value_json(
                                done@[j].1,
                            ) == members.rows@[j].1@,
                    decreases members.rows@.len() - i,
                {
                    let row: &(String, Json) = &members.rows[i];
                    assert(decreases_to!(*self => self->Object_0));
                    assert(decreases_to!(*members => members.rows));
                    assert(decreases_to!(members.rows => members.rows@));
                    assert(decreases_to!(members.rows@ => members.rows@[i as int]));
                    assert(decreases_to!(members.rows@[i as int] => members.rows@[i as int].1));
                    done.push((row.0.clone(), row.1.to_value()));
                    i = i + 1;
                }
                proof {
                    use_type_invariant(members);
                    lemma_rows_of_values(members.rows@, done@);
                }
                Layer::Object(done)
            },
        };
        close_value(layer)
    }

    /// The JSON value in `text`.
    pub fn parse(text: &str) -> (json: Option<Json>)
        ensures
            (match json {
                Some(j) => text_json(text@) == Some(j@),
                None => text_json(text@) is None,
            }),
    {
        match read_value(text) {
            Some(value) => Some(Json::from_value(value)),
            None => None,
        }
    }

    /// The compact text of the value. It is one line.
    pub fn to_text(&self) -> (text: String)
        ensures
            text@ == json_text(self@),
            !text@.contains('\n'),
            reads_back(self@, text_json(text@)),
    {
        write_value(&self.to_value())
    }
}

/// Rows of JSON values are the members that rows of `serde_json` values with the same names hold.
proof fn lemma_rows_of_values(
    a: Seq<(String, Json)>,
    b: Seq<(String, serde_json::Value)>,
)
    requires
        a.len() == b.len(),
        forall|j: int|
            0 <= j < a.len() ==> (#[trigger] a[j]).0 == (#[trigger] b[j]).0 && a[j].1@
                == value_json(b[j].1),
    ensures
        rows_view(a) == rows_map(b).map_values(|v: serde_json::Value| value_json(v)),
        names_distinct(a) == names_distinct(b),
    decreases a.len(),
{
    if a.len() > 0 {
        let a1 = a.drop_last();
        let b1 = b.drop_last();
        assert forall|j: int| 0 <= j < a1.len() implies (#[trigger] a1[j]).0 == (#[trigger] b1[j]).0
            && a1[j].1@ == value_json(b1[j].1) by {
            assert(a[j].0 == b[j].0);
        }
        lemma_rows_of_values(a1, b1);
        assert(a[a.len() - 1].0 == b[a.len() - 1].0);
    }
    assert(rows_view(a) =~= rows_map(b).map_values(|v: serde_json::Value| value_json(v)));
    assert(names_distinct(a) == names_distinct(b)) by {
        assert forall|i: int, j: int| 0 <= i < j < a.len() implies (a[i].0@ != a[j].0@) == (b[i].0@
            != b[j].0@) by {
            assert(a[i].0 == b[i].0);
            assert(a[j].0 == b[j].0);
        }
    }
}

/// An object has just the members that its map holds; nothing else has any.
pub proof fn law_members_are_those_of_the_map(
    json: JsonV,
    members: Map<Seq<char>, JsonV>,
    name: Seq<char>,
)
    ensures
        members.contains_key(name) ==> member(JsonV::Object(members), name) == Some(members[name]),
        !members.contains_key(name) ==> member(JsonV::Object(members), name) is None,
        !(json is Object) ==> member(json, name) is None,
{
}

/// Putting a member into an object gives it that member under that name, and leaves every other
/// member and the absence of any other as it was. Nothing else can be given members.
pub proof fn law_setting_a_member_changes_no_other(
    json: JsonV,
    members: Map<Seq<char>, JsonV>,
    name: Seq<char>,
    value: JsonV,
    other: Seq<char>,
)
    ensures
        with_member(JsonV::Object(members), name, value) is Object,
        member(with_member(JsonV::Object(members), name, value), name) == Some(value),
        other != name ==> member(with_member(JsonV::Object(members), name, value), other) == (
        if members.contains_key(other) {
            Some(members[other])
        } else {
            None
        }),
        with_member(JsonV::Object(members), name, value)->Object_0.dom() == members.dom().insert(
            name,
        ),
        !(json is Object) ==> with_member(json, name, value) == json,
{
}

/// An unsigned integer is itself, and nothing else is one.
pub proof fn law_only_unsigned_integers_are_unsigned(json: JsonV, n: u64)
    ensures
        unsigned(Some(JsonV::Unsigned(n))) == Some(n),
        unsigned(Some(json)) == Some(n) ==> json == JsonV::Unsigned(n),
        unsigned(None) is None,
{
}

/// What a value is can be read off it: scalars hold what they hold, an array is the sequence of
/// what its items are, and an object the map of what its members are.
pub proof fn law_values_are_what_they_hold(
    b: bool,
    n: u64,
    text: String,
    items: Vec<Json>,
    members: Table<Json>,
    i: int,
    name: Seq<char>,
    negative: NegativeInteger,
    other: OtherNumber,
)
    ensures
        Json::Null@ == JsonV::Null,
        Json::Negative(negative)@ == JsonV::Negative(negative@),
        Json::Number(other)@ == JsonV::Number(other@),
        Json::Bool(b)@ == JsonV::Bool(b),
        Json::Unsigned(n)@ == JsonV::Unsigned(n),
        Json::Str(text)@ == JsonV::Str(text@),
        Json::Array(items)@ is Array,
        Json::Array(items)@->Array_0.len() == items@.len(),
        0 <= i < items@.len() ==> Json::Array(items)@->Array_0[i] == items@[i]@,
        Json::Object(members)@ is Object,
        Json::Object(members)@->Object_0.dom() == members@.dom(),
        members@.contains_key(name) ==> Json::Object(members)@->Object_0[name]
            == members@[name]@,
{
    lemma_items_view(items@);
    lemma_members_view(members);
    assert(members_view(members).dom() =~= members@.dom());
}

/// A layer is what it holds. A number is told by its sign and size: an unsigned integer, an integer
/// below zero, or another number as it is.
pub proof fn law_layers_are_what_they_hold(
    b: bool,
    number: serde_json::Number,
    text: String,
    items: Vec<serde_json::Value>,
    rows: Vec<(String, serde_json::Value)>,
    n: u64,
    m: i64,
    i: int,
)
    ensures
        layer_json(Layer::Null) == JsonV::Null,
        layer_json(Layer::Bool(b)) == JsonV::Bool(b),
        layer_json(Layer::Str(text)) == JsonV::Str(text@),
        number_u64(number) == Some(n) ==> layer_json(Layer::Number(number)) == JsonV::Unsigned(n),
        number_u64(number) is None && number_i64(number) == Some(m) && m < 0 ==> layer_json(
            Layer::Number(number),
        ) == JsonV::Negative(m) && !is_other(number),
        number_u64(number) is None && (number_i64(number) is None || number_i64(number)->Some_0 >= 0)
            ==> layer_json(Layer::Number(number)) == JsonV::Number(number) && is_other(number),
        layer_json(Layer::Array(items)) matches JsonV::Array(all) && all.len() == items@.len() && (0
            <= i < items@.len() ==> all[i] == value_json(items@[i])),
        layer_distinct(Layer::Object(rows)) && 0 <= i < rows@.len() ==> member(
            layer_json(Layer::Object(rows)),
            rows@[i].0@,
        ) == Some(value_json(rows@[i].1)),
        layer_distinct(Layer::Object(rows)) ==> layer_json(
            Layer::Object(rows),
        )->Object_0.dom().len() == rows@.len(),
{
    if layer_distinct(Layer::Object(rows)) {
        lemma_map_len(rows@);
        if 0 <= i < rows@.len() {
            lemma_row_in_map(rows@, i);
        }
        assert(layer_json(Layer::Object(rows))->Object_0.dom() =~= rows_map(rows@).dom());
    }
}

/// What is written reads back: scalars that are no other number, and lists and objects of what
/// reads back one layer less deep, as long as no object has the name for raw JSON text.
pub proof fn law_plain_values_read_back(
    json: JsonV,
    read: Option<JsonV>,
    items: Seq<JsonV>,
    members: Map<Seq<char>, JsonV>,
    depth: nat,
    name: Seq<char>,
)
    requires
        reads_back(json, read),
    ensures
        json is Null || json is Bool || json is Unsigned || json is Negative || json is Str ==> read
            == Some(json),
        plain_within(json, 127) ==> read == Some(json),
        (forall|i: int| 0 <= i < items.len() ==> plain_within(#[trigger] items[i], depth))
            ==> plain_within(JsonV::Array(items), depth + 1),
        (forall|k: Seq<char>| #[trigger]
            members.contains_key(k) ==> k != "$serde_json::private::RawValue"@ && plain_within(
                members[k],
                depth,
            )) ==> plain_within(JsonV::Object(members), depth + 1),
        json matches JsonV::Object(own) && own.contains_key(name) && name
            != "$serde_json::private::RawValue"@ && (own[name] is Unsigned || own[name] is Negative
            || own[name] is Str) && read is Some ==> member(read->Some_0, name) == Some(
            json->Object_0[name],
        ),
{
    if json is Object && json->Object_0.contains_key(name) && name
        != "$serde_json::private::RawValue"@ {
        assert(json->Object_0.dom().contains(name));
        assert(!set![raw_name()].contains(name));
    }
}

} // verus!
