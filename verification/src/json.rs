//! JSON values: their model, their fields, and the way to and from
//! `serde_json::Value`.

use vstd::prelude::*;

use crate::order::text_less;
use crate::order::text_lt;
use crate::text::text_eq;

verus! {

#[verifier::external_type_specification]
#[verifier::external_body]
pub struct ExValue(serde_json::Value);

#[verifier::external_type_specification]
#[verifier::external_body]
pub struct ExNumber(serde_json::Number);

/// A JSON number: an integer where it is written as one and fits, and otherwise
/// the number as `serde_json` keeps it.
#[derive(Debug, PartialEq)]
pub enum JsonNumber {
    Unsigned(u64),
    Negative(i64),
    Float(serde_json::Number),
}

/// A JSON value. The pairs of an object are kept in the order of their keys.
#[derive(Debug, PartialEq)]
pub enum Json {
    Null,
    Bool(bool),
    Number(JsonNumber),
    String(String),
    Array(Vec<Json>),
    Object(Vec<(String, Json)>),
}

/// What a [`Json`] stands for.
pub enum JsonView {
    Null,
    Bool(bool),
    Number(JsonNumber),
    String(Seq<char>),
    Array(Seq<JsonView>),
    Object(Seq<(Seq<char>, JsonView)>),
}

pub open spec fn json_view(j: Json) -> JsonView
    decreases j,
{
    match j {
        Json::Null => JsonView::Null,
        Json::Bool(b) => JsonView::Bool(b),
        Json::Number(n) => JsonView::Number(n),
        Json::String(s) => JsonView::String(s@),
        Json::Array(items) => JsonView::Array(json_views(items@)),
        Json::Object(pairs) => JsonView::Object(pair_views(pairs@)),
    }
}

pub open spec fn json_views(items: Seq<Json>) -> Seq<JsonView>
    decreases items,
{
    Seq::new(
        items.len(),
        |i: int|
            if 0 <= i < items.len() {
                json_view(items[i])
            } else {
                arbitrary()
            },
    )
}

pub open spec fn pair_views(pairs: Seq<(String, Json)>) -> Seq<(Seq<char>, JsonView)>
    decreases pairs,
{
    Seq::new(
        pairs.len(),
        |i: int|
            if 0 <= i < pairs.len() {
                (pairs[i].0@, json_view(pairs[i].1))
            } else {
                arbitrary()
            },
    )
}

impl View for Json {
    type V = JsonView;

    open spec fn view(&self) -> JsonView {
        json_view(*self)
    }
}

/// The first place of `key` among the pairs, or their number if it is not there.
pub open spec fn key_index(pairs: Seq<(Seq<char>, JsonView)>, key: Seq<char>) -> int {
    key_index_from(pairs, key, 0)
}

pub open spec fn key_index_from(
    pairs: Seq<(Seq<char>, JsonView)>,
    key: Seq<char>,
    i: int,
) -> int
    decreases pairs.len() - i,
{
    if i < 0 || i >= pairs.len() {
        pairs.len() as int
    } else if pairs[i].0 == key {
        i
    } else {
        key_index_from(pairs, key, i + 1)
    }
}

/// The place at which `key` belongs among pairs in the order of their keys.
pub open spec fn key_slot(pairs: Seq<(Seq<char>, JsonView)>, key: Seq<char>, i: int) -> int
    decreases pairs.len() - i,
{
    if i < 0 || i >= pairs.len() {
        pairs.len() as int
    } else if pairs[i].0 == key || text_lt(key, pairs[i].0) {
        i
    } else {
        key_slot(pairs, key, i + 1)
    }
}

/// The pairs with `key` set to `value`.
pub open spec fn with_key(
    pairs: Seq<(Seq<char>, JsonView)>,
    key: Seq<char>,
    value: JsonView,
) -> Seq<(Seq<char>, JsonView)> {
    let slot = key_slot(pairs, key, 0);
    if slot < pairs.len() && pairs[slot].0 == key {
        pairs.update(slot, (key, value))
    } else {
        pairs.insert(slot, (key, value))
    }
}

/// The first `n` of the given pairs as an object's pairs; of two with the same
/// key the later one counts.
pub open spec fn collected(given: Seq<(Seq<char>, JsonView)>, n: int) -> Seq<
    (Seq<char>, JsonView),
>
    decreases n,
{
    if n <= 0 {
        Seq::empty()
    } else {
        with_key(collected(given, n - 1), given[n - 1].0, given[n - 1].1)
    }
}

/// The object with the given pairs.
pub open spec fn object_view(given: Seq<(Seq<char>, JsonView)>) -> JsonView {
    JsonView::Object(collected(given, given.len() as int))
}

/// The number an `i64` is.
pub open spec fn int_number(n: int) -> JsonNumber {
    if n < 0 {
        JsonNumber::Negative(n as i64)
    } else {
        JsonNumber::Unsigned(n as u64)
    }
}

impl JsonView {
    pub open spec fn bool_value(self) -> Option<bool> {
        match self {
            JsonView::Bool(b) => Some(b),
            _ => None,
        }
    }

    pub open spec fn u64_value(self) -> Option<u64> {
        match self {
            JsonView::Number(JsonNumber::Unsigned(n)) => Some(n),
            _ => None,
        }
    }

    pub open spec fn i64_value(self) -> Option<i64> {
        match self {
            JsonView::Number(JsonNumber::Unsigned(n)) => if n <= i64::MAX {
                Some(n as i64)
            } else {
                None
            },
            JsonView::Number(JsonNumber::Negative(n)) => Some(n),
            _ => None,
        }
    }

    pub open spec fn str_value(self) -> Option<Seq<char>> {
        match self {
            JsonView::String(s) => Some(s),
            _ => None,
        }
    }

    /// The value under `key`, if this is an object that has one.
    pub open spec fn at_key(self, key: Seq<char>) -> Option<JsonView> {
        match self {
            JsonView::Object(pairs) => {
                let i = key_index(pairs, key);
                if 0 <= i < pairs.len() {
                    Some(pairs[i].1)
                } else {
                    None
                }
            },
            _ => None,
        }
    }
}

/// Finds the first pair with a key.
pub fn find_key(pairs: &Vec<(String, Json)>, key: &str) -> (r: Option<usize>)
    ensures
        match r {
            Some(i) => i < pairs@.len() && i == key_index(pair_views(pairs@), key@),
            None => key_index(pair_views(pairs@), key@) == pairs@.len(),
        },
{
    let mut i: usize = 0;
    while i < pairs.len()
        invariant
            i <= pairs@.len(),
            key_index(pair_views(pairs@), key@) == key_index_from(
                pair_views(pairs@),
                key@,
                i as int,
            ),
        decreases pairs@.len() - i,
    {
        assert(pair_views(pairs@)[i as int].0 == pairs@[i as int].0@);
        if text_eq(pairs[i].0.as_str(), key) {
            return Some(i);
        }
        i += 1;
    }
    None
}

impl Json {
    /// A text as a JSON string.
    pub fn text(s: &str) -> (r: Json)
        ensures
            r@ == JsonView::String(s@),
    {
        Json::String(s.to_owned())
    }

    /// A copy of this value.
    pub fn copy(&self) -> (r: Json)
        ensures
            r@ == self@,
        decreases self@, 0int,
    {
        match self {
            Json::Null => Json::Null,
            Json::Bool(b) => Json::Bool(*b),
            Json::Number(n) => Json::Number(n.copy()),
            Json::String(s) => Json::String(s.clone()),
            Json::Array(items) => {
                proof {
                    assert(self@ == JsonView::Array(json_views(items@)));
                    assert(decreases_to!(self@ => self@->Array_0));
                }
                let mut out: Vec<Json> = Vec::new();
                let mut i: usize = 0;
                while i < items.len()
                    invariant
                        i <= items@.len(),
                        out@.len() == i,
                        self@ == JsonView::Array(json_views(items@)),
                        decreases_to!(self@ => self@->Array_0),
                        forall|k: int| 0 <= k < i ==> (#[trigger] out@[k])@ == items@[k]@,
                    decreases items@.len() - i,
                {
                    proof {
                        assert(self@->Array_0[i as int] == items@[i as int]@);
                    }
                    out.push(items[i].copy());
                    i += 1;
                }
                assert(json_views(out@) =~= json_views(items@));
                Json::Array(out)
            },
            Json::Object(pairs) => {
                proof {
                    assert(self@ == JsonView::Object(pair_views(pairs@)));
                    assert(decreases_to!(self@ => self@->Object_0));
                }
                let mut out: Vec<(String, Json)> = Vec::new();
                let mut i: usize = 0;
                while i < pairs.len()
                    invariant
                        i <= pairs@.len(),
                        out@.len() == i,
                        self@ == JsonView::Object(pair_views(pairs@)),
                        decreases_to!(self@ => self@->Object_0),
                        forall|k: int|
                            0 <= k < i ==> (#[trigger] out@[k]).0@ == pairs@[k].0@ && out@[k].1@
                                == pairs@[k].1@,
                    decreases pairs@.len() - i,
                {
                    proof {
                        assert(self@->Object_0[i as int].1 == pairs@[i as int].1@);
                        assert(decreases_to!(self@->Object_0 => self@->Object_0[i as int]));
                    }
                    out.push((pairs[i].0.clone(), pairs[i].1.copy()));
                    i += 1;
                }
                assert(pair_views(out@) =~= pair_views(pairs@));
                Json::Object(out)
            },
        }
    }

    pub fn as_bool(&self) -> (r: Option<bool>)
        ensures
            r == self@.bool_value(),
    {
        match self {
            Json::Bool(b) => Some(*b),
            _ => None,
        }
    }

    pub fn as_u64(&self) -> (r: Option<u64>)
        ensures
            r == self@.u64_value(),
    {
        match self {
            Json::Number(JsonNumber::Unsigned(n)) => Some(*n),
            _ => None,
        }
    }

    pub fn as_i64(&self) -> (r: Option<i64>)
        ensures
            r == self@.i64_value(),
    {
        match self {
            Json::Number(JsonNumber::Unsigned(n)) => if *n <= i64::MAX as u64 {
                Some(*n as i64)
            } else {
                None
            },
            Json::Number(JsonNumber::Negative(n)) => Some(*n),
            _ => None,
        }
    }

    pub fn as_str(&self) -> (r: Option<&str>)
        ensures
            match r {
                Some(s) => self@.str_value() == Some(s@),
                None => self@.str_value() is None,
            },
    {
        match self {
            Json::String(s) => Some(s.as_str()),
            _ => None,
        }
    }

    /// The value under `key`, if this is an object that has one.
    pub fn get(&self, key: &str) -> (r: Option<&Json>)
        ensures
            match r {
                Some(v) => self@.at_key(key@) == Some(v@),
                None => self@.at_key(key@) is None,
            },
    {
        match self {
            Json::Object(pairs) => match find_key(pairs, key) {
                Some(i) => Some(&pairs[i].1),
                None => None,
            },
            _ => None,
        }
    }
}

impl JsonNumber {
    fn copy(&self) -> (r: JsonNumber)
        ensures
            r == *self,
    {
        match self {
            JsonNumber::Unsigned(n) => JsonNumber::Unsigned(*n),
            JsonNumber::Negative(n) => JsonNumber::Negative(*n),
            JsonNumber::Float(n) => JsonNumber::Float(n.clone()),
        }
    }
}

/// `Clone` of `serde_json::Number`: the copy is the number copied.
pub assume_specification[ <serde_json::Number as Clone>::clone ](
    n: &serde_json::Number,
) -> (r: serde_json::Number)
    ensures
        r == *n,
;

/// Sets `key` to `value` among pairs in the order of their keys.
pub fn set_key(pairs: &mut Vec<(String, Json)>, key: String, value: Json)
    ensures
        pair_views(final(pairs)@) == with_key(pair_views(old(pairs)@), key@, value@),
{
    let ghost before = pair_views(pairs@);
    let mut i: usize = 0;
    loop
        invariant
            i <= pairs@.len(),
            before == pair_views(pairs@),
            *pairs == *old(pairs),
            key_slot(before, key@, 0) == key_slot(before, key@, i as int),
        decreases pairs@.len() - i,
    {
        if i == pairs.len() {
            pairs.push((key, value));
            assert(pair_views(pairs@) =~= with_key(before, key@, value@));
            return;
        }
        assert(before[i as int].0 == pairs@[i as int].0@);
        if text_eq(pairs[i].0.as_str(), key.as_str()) {
            pairs.set(i, (key, value));
            assert(pair_views(pairs@) =~= with_key(before, key@, value@));
            return;
        }
        if text_less(key.as_str(), pairs[i].0.as_str()) {
            pairs.insert(i, (key, value));
            assert(pair_views(pairs@) =~= with_key(before, key@, value@));
            return;
        }
        i += 1;
    }
}

/// The object with the given pairs; of two with the same key the later one
/// counts.
pub fn object(given: Vec<(String, Json)>) -> (r: Json)
    ensures
        r@ == object_view(pair_views(given@)),
{
    let mut pairs: Vec<(String, Json)> = Vec::new();
    let ghost all = pair_views(given@);
    let ghost items = given@;
    assert(pair_views(pairs@) =~= collected(all, 0));
    for pair in it: given
        invariant
            it.seq() == items,
            all == pair_views(items),
            pair_views(pairs@) == collected(all, it.index()),
    {
        proof {
            assert(all[it.index()] == (pair.0@, pair.1@));
        }
        set_key(&mut pairs, pair.0, pair.1);
    }
    Json::Object(pairs)
}

/// What a number of `serde_json` is: an integer that fits 64 bits, or not.
pub uninterp spec fn number_held(n: serde_json::Number) -> JsonNumber;

/// What a `serde_json::Value` holds.
pub uninterp spec fn json_held(v: serde_json::Value) -> JsonView;

/// What the compact notation of a JSON value is.
pub uninterp spec fn json_text(j: JsonView) -> Seq<char>;

/// What the debug notation of a JSON value is.
pub uninterp spec fn json_debug(j: JsonView) -> Seq<char>;

/// What a text denotes as JSON, if it is JSON.
pub uninterp spec fn json_of_text(s: Seq<char>) -> Option<JsonView>;

/// One layer of a `serde_json::Value`.
pub enum JsonLayer {
    Null,
    Bool(bool),
    Number(JsonNumber),
    String(String),
    Array(Vec<serde_json::Value>),
    Object(Vec<(String, serde_json::Value)>),
}

pub open spec fn held_items(items: Seq<serde_json::Value>) -> Seq<JsonView> {
    Seq::new(items.len(), |i: int| json_held(items[i]))
}

pub open spec fn held_pairs(pairs: Seq<(String, serde_json::Value)>) -> Seq<
    (Seq<char>, JsonView),
> {
    Seq::new(pairs.len(), |i: int| (pairs[i].0@, json_held(pairs[i].1)))
}

impl JsonLayer {
    pub open spec fn held(self) -> JsonView {
        match self {
            JsonLayer::Null => JsonView::Null,
            JsonLayer::Bool(b) => JsonView::Bool(b),
            JsonLayer::Number(n) => JsonView::Number(n),
            JsonLayer::String(s) => JsonView::String(s@),
            JsonLayer::Array(items) => JsonView::Array(held_items(items@)),
            JsonLayer::Object(pairs) => JsonView::Object(held_pairs(pairs@)),
        }
    }
}

/// The number that `serde_json` keeps for a number: it never keeps a
/// non-negative integer as a negative one, nor an integer as a float.
pub open spec fn settled(n: JsonNumber) -> JsonNumber {
    match n {
        JsonNumber::Unsigned(u) => n,
        JsonNumber::Negative(i) => int_number(i as int),
        JsonNumber::Float(f) => number_held(f),
    }
}

/// Whether the keys of the pairs strictly increase.
pub open spec fn keys_increase(pairs: Seq<(Seq<char>, JsonView)>) -> bool {
    forall|i: int, j: int|
        0 <= i < j < pairs.len() ==> text_lt((#[trigger] pairs[i]).0, (#[trigger] pairs[j]).0)
}

/// Takes a `serde_json::Value` apart by its variant. A number comes out by
/// `Number::as_u64` and `Number::as_i64`; an object's pairs come out as the map
/// walks them, which is in the order of their keys.
#[verifier::external_body]
fn split_value(v: serde_json::Value) -> (r: JsonLayer)
    ensures
        r.held() == json_held(v),
        r matches JsonLayer::Number(JsonNumber::Negative(i)) ==> i < 0,
        r matches JsonLayer::Number(JsonNumber::Float(n)) ==> number_held(n) == JsonNumber::Float(n),
        r matches JsonLayer::Object(pairs) ==> keys_increase(held_pairs(pairs@)),
{
    match v {
        serde_json::Value::Null => JsonLayer::Null,
        serde_json::Value::Bool(b) => JsonLayer::Bool(b),
        serde_json::Value::Number(n) => JsonLayer::Number(match (n.as_u64(), n.as_i64()) {
            (Some(u), _) => JsonNumber::Unsigned(u),
            (None, Some(i)) => JsonNumber::Negative(i),
            (None, None) => JsonNumber::Float(n),
        }),
        serde_json::Value::String(s) => JsonLayer::String(s),
        serde_json::Value::Array(items) => JsonLayer::Array(items),
        serde_json::Value::Object(pairs) => JsonLayer::Object(pairs.into_iter().collect()),
    }
}

/// Builds a `serde_json::Value` from one layer. Collecting pairs into a map
/// keeps one pair for each key, the last one given, in the order of the keys.
#[verifier::external_body]
fn join_value(layer: JsonLayer) -> (v: serde_json::Value)
    ensures
        json_held(v) == match layer.held() {
            JsonView::Number(n) => JsonView::Number(settled(n)),
            JsonView::Object(pairs) => object_view(pairs),
            held => held,
        },
{
    match layer {
        JsonLayer::Null => serde_json::Value::Null,
        JsonLayer::Bool(b) => serde_json::Value::Bool(b),
        JsonLayer::Number(JsonNumber::Unsigned(u)) => serde_json::Value::Number(u.into()),
        JsonLayer::Number(JsonNumber::Negative(i)) => serde_json::Value::Number(i.into()),
        JsonLayer::Number(JsonNumber::Float(n)) => serde_json::Value::Number(n),
        JsonLayer::String(s) => serde_json::Value::String(s),
        JsonLayer::Array(items) => serde_json::Value::Array(items),
        JsonLayer::Object(pairs) => serde_json::Value::Object(pairs.into_iter().collect()),
    }
}

/// `Display` of `serde_json::Value`: its compact notation.
#[verifier::external_body]
fn value_text(v: &serde_json::Value) -> (r: String)
    ensures
        r@ == json_text(json_held(*v)),
{
    v.to_string()
}

/// `Debug` of `serde_json::Value`.
#[verifier::external_body]
fn value_debug(v: &serde_json::Value) -> (r: String)
    ensures
        r@ == json_debug(json_held(*v)),
{
    format!("{:?}", v)
}

/// `serde_json::from_str` into a `Value`.
#[verifier::external_body]
fn parse_value(s: &str) -> (r: Option<serde_json::Value>)
    ensures
        match r {
            Some(v) => json_of_text(s@) == Some(json_held(v)),
            None => json_of_text(s@) is None,
        },
{
    serde_json::from_str(s).ok()
}

/// The value that `serde_json` keeps for a JSON value: objects by their keys
/// and numbers by their kind.
pub open spec fn canonical(j: JsonView) -> JsonView
    decreases j,
{
    match j {
        JsonView::Number(n) => JsonView::Number(settled(n)),
        JsonView::Array(items) => JsonView::Array(canonical_items(items)),
        JsonView::Object(pairs) => object_view(canonical_pairs(pairs)),
        _ => j,
    }
}

pub open spec fn canonical_items(items: Seq<JsonView>) -> Seq<JsonView>
    decreases items,
{
    Seq::new(
        items.len(),
        |i: int|
            if 0 <= i < items.len() {
                canonical(items[i])
            } else {
                arbitrary()
            },
    )
}

pub open spec fn canonical_pairs(pairs: Seq<(Seq<char>, JsonView)>) -> Seq<(Seq<char>, JsonView)>
    decreases pairs,
{
    Seq::new(
        pairs.len(),
        |i: int|
            if 0 <= i < pairs.len() {
                (pairs[i].0, canonical(pairs[i].1))
            } else {
                arbitrary()
            },
    )
}

/// Whether a value is kept by `serde_json` as it stands: in each object the
/// keys strictly increase, and each number is of its own kind.
pub open spec fn is_canonical(j: JsonView) -> bool
    decreases j,
{
    match j {
        JsonView::Number(n) => settled(n) == n,
        JsonView::Array(items) => forall|i: int|
            0 <= i < items.len() ==> is_canonical(#[trigger] items[i]),
        JsonView::Object(pairs) => {
            &&& keys_increase(pairs)
            &&& forall|i: int| 0 <= i < pairs.len() ==> is_canonical((#[trigger] pairs[i]).1)
        },
        _ => true,
    }
}

impl Json {
    /// Reads a `serde_json::Value`.
    pub fn from_value(v: serde_json::Value) -> (r: Json)
        ensures
            r@ == json_held(v),
            is_canonical(r@),
        decreases json_held(v),
    {
        let ghost whole = json_held(v);
        match split_value(v) {
            JsonLayer::Null => Json::Null,
            JsonLayer::Bool(b) => Json::Bool(b),
            JsonLayer::Number(n) => Json::Number(n),
            JsonLayer::String(s) => Json::String(s),
            JsonLayer::Array(items) => {
                let ghost all = items@;
                proof {
                    assert(whole == JsonView::Array(held_items(all)));
                    assert(decreases_to!(whole => whole->Array_0));
                }
                let mut out: Vec<Json> = Vec::new();
                for item in it: items
                    invariant
                        it.seq() == all,
                        whole == json_held(v),
                        whole == JsonView::Array(held_items(all)),
                        decreases_to!(whole => whole->Array_0),
                        out@.len() == it.index(),
                        forall|k: int|
                            0 <= k < it.index() ==> (#[trigger] out@[k])@ == json_held(all[k])
                                && is_canonical(out@[k]@),
                {
                    proof {
                        assert(whole->Array_0[it.index()] == json_held(item));
                    }
                    out.push(Json::from_value(item));
                }
                assert(json_views(out@) =~= held_items(all));
                Json::Array(out)
            },
            JsonLayer::Object(pairs) => {
                let ghost all = pairs@;
                proof {
                    assert(whole == JsonView::Object(held_pairs(all)));
                    assert(decreases_to!(whole => whole->Object_0));
                }
                let mut out: Vec<(String, Json)> = Vec::new();
                for pair in it: pairs
                    invariant
                        it.seq() == all,
                        whole == json_held(v),
                        whole == JsonView::Object(held_pairs(all)),
                        decreases_to!(whole => whole->Object_0),
                        out@.len() == it.index(),
                        forall|k: int|
                            0 <= k < it.index() ==> (#[trigger] out@[k]).0@ == all[k].0@
                                && out@[k].1@ == json_held(all[k].1) && is_canonical(out@[k].1@),
                {
                    proof {
                        assert(whole->Object_0[it.index()].1 == json_held(pair.1));
                        assert(decreases_to!(whole->Object_0 => whole->Object_0[it.index()]));
                    }
                    out.push((pair.0, Json::from_value(pair.1)));
                }
                assert(pair_views(out@) =~= held_pairs(all));
                Json::Object(out)
            },
        }
    }

    /// Builds the `serde_json::Value` for this value.
    pub fn to_value(&self) -> (v: serde_json::Value)
        ensures
            json_held(v) == canonical(self@),
        decreases self@,
    {
        match self {
            Json::Null => join_value(JsonLayer::Null),
            Json::Bool(b) => join_value(JsonLayer::Bool(*b)),
            Json::Number(n) => join_value(JsonLayer::Number(n.copy())),
            Json::String(s) => join_value(JsonLayer::String(s.clone())),
            Json::Array(items) => {
                proof {
                    assert(self@ == JsonView::Array(json_views(items@)));
                    assert(decreases_to!(self@ => self@->Array_0));
                }
                let mut out: Vec<serde_json::Value> = Vec::new();
                let mut i: usize = 0;
                while i < items.len()
                    invariant
                        i <= items@.len(),
                        out@.len() == i,
                        self@ == JsonView::Array(json_views(items@)),
                        decreases_to!(self@ => self@->Array_0),
                        forall|k: int|
                            0 <= k < i ==> json_held(#[trigger] out@[k]) == canonical(
                                json_views(items@)[k],
                            ),
                    decreases items@.len() - i,
                {
                    proof {
                        assert(self@->Array_0[i as int] == items@[i as int]@);
                    }
                    out.push(items[i].to_value());
                    i += 1;
                }
                proof {
                    assert(held_items(out@) =~= canonical_items(json_views(items@)));
                }
                join_value(JsonLayer::Array(out))
            },
            Json::Object(pairs) => {
                proof {
                    assert(self@ == JsonView::Object(pair_views(pairs@)));
                    assert(decreases_to!(self@ => self@->Object_0));
                }
                let mut out: Vec<(String, serde_json::Value)> = Vec::new();
                let mut i: usize = 0;
                while i < pairs.len()
                    invariant
                        i <= pairs@.len(),
                        out@.len() == i,
                        self@ == JsonView::Object(pair_views(pairs@)),
                        decreases_to!(self@ => self@->Object_0),
                        forall|k: int|
                            0 <= k < i ==> (#[trigger] out@[k]).0@ == pairs@[k].0@ && json_held(
                                out@[k].1,
                            ) == canonical(pair_views(pairs@)[k].1),
                    decreases pairs@.len() - i,
                {
                    proof {
                        assert(self@->Object_0[i as int].1 == pairs@[i as int].1@);
                        assert(decreases_to!(self@->Object_0 => self@->Object_0[i as int]));
                    }
                    out.push((pairs[i].0.clone(), pairs[i].1.to_value()));
                    i += 1;
                }
                proof {
                    assert(held_pairs(out@) =~= canonical_pairs(pair_views(pairs@)));
                }
                join_value(JsonLayer::Object(out))
            },
        }
    }

    /// The compact notation.
    pub fn to_text(&self) -> (r: String)
        ensures
            r@ == json_text(canonical(self@)),
    {
        value_text(&self.to_value())
    }

    /// The debug notation of the value as `serde_json` keeps it.
    pub fn to_debug(&self) -> (r: String)
        ensures
            r@ == json_debug(canonical(self@)),
    {
        value_debug(&self.to_value())
    }

    /// Reads a text as JSON, if it is JSON.
    pub fn parse(s: &str) -> (r: Option<Json>)
        ensures
            match r {
                Some(j) => json_of_text(s@) == Some(j@) && is_canonical(j@),
                None => json_of_text(s@) is None,
            },
    {
        match parse_value(s) {
            Some(v) => Some(Json::from_value(v)),
            None => None,
        }
    }
}

} // verus!
