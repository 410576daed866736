//! JSON values as the gateway exchanges them: resources are objects whose keys
//! are numeric attribute identifiers.
//!
//! `JsonValue` is the executable value; `Json` is its mathematical model. An
//! object is a sequence of entries; lookups take the first entry with the key
//! (the maps the gateway sends hold each key once). Equality (`json_same`) is
//! that of JSON: objects compare as maps, whatever the order of their entries,
//! and floating-point numbers compare as `f64`s.
use vstd::prelude::*;
use vstd::string::*;
use crate::text::text_eq;

verus! {

/// An `f64` kept as its bit pattern. `==` compares as `f64` does: the two
/// zeros are equal and a NaN equals nothing.
#[derive(Clone, Copy, Debug)]
pub struct F64Bits(pub u64);

/// The bit pattern is a NaN: all exponent bits set and a non-zero fraction.
pub open spec fn f64_is_nan(bits: u64) -> bool {
    (bits & 0x7ff0_0000_0000_0000u64) == 0x7ff0_0000_0000_0000u64 && (bits
        & 0x000f_ffff_ffff_ffffu64) != 0
}

/// The bit pattern is `0.0` or `-0.0`.
pub open spec fn f64_is_zero(bits: u64) -> bool {
    (bits & 0x7fff_ffff_ffff_ffffu64) == 0
}

/// `f64` equality on bit patterns: neither is a NaN, and the patterns are
/// the same or both are zeros.
pub open spec fn f64_same(a: u64, b: u64) -> bool {
    !f64_is_nan(a) && !f64_is_nan(b) && (a == b || (f64_is_zero(a) && f64_is_zero(b)))
}

/// Whether the `f64`s with bit patterns `a` and `b` are equal.
pub fn f64_bits_eq(a: u64, b: u64) -> (r: bool)
    ensures
        r == f64_same(a, b),
{
    let a_nan = (a & 0x7ff0_0000_0000_0000u64) == 0x7ff0_0000_0000_0000u64 && (a
        & 0x000f_ffff_ffff_ffffu64) != 0;
    let b_nan = (b & 0x7ff0_0000_0000_0000u64) == 0x7ff0_0000_0000_0000u64 && (b
        & 0x000f_ffff_ffff_ffffu64) != 0;
    let both_zero = (a & 0x7fff_ffff_ffff_ffffu64) == 0 && (b & 0x7fff_ffff_ffff_ffffu64) == 0;
    !a_nan && !b_nan && (a == b || both_zero)
}

impl PartialEq for F64Bits {
    fn eq(&self, other: &Self) -> (r: bool) {
        f64_bits_eq(self.0, other.0)
    }
}

impl vstd::std_specs::cmp::PartialEqSpecImpl for F64Bits {
    open spec fn obeys_eq_spec() -> bool {
        true
    }

    open spec fn eq_spec(&self, other: &Self) -> bool {
        f64_same(self.0, other.0)
    }
}

/// A JSON number, in the three forms that a JSON number can take: a
/// non-negative integer, a negative integer, or a floating-point number.
#[derive(Clone, Copy, Debug)]
pub enum JsonNumber {
    PosInt(u64),
    NegInt(i64),
    Float(F64Bits),
}

/// Equality of numbers: integers of the same form and value, or equal `f64`s.
pub open spec fn number_same(x: JsonNumber, y: JsonNumber) -> bool {
    match x {
        JsonNumber::PosInt(a) => y matches JsonNumber::PosInt(b) && a == b,
        JsonNumber::NegInt(a) => y matches JsonNumber::NegInt(b) && a == b,
        JsonNumber::Float(a) => y matches JsonNumber::Float(b) && f64_same(a.0, b.0),
    }
}

/// Whether two numbers are equal.
pub fn number_eq(x: &JsonNumber, y: &JsonNumber) -> (r: bool)
    ensures
        r == number_same(*x, *y),
{
    match (x, y) {
        (JsonNumber::PosInt(a), JsonNumber::PosInt(b)) => *a == *b,
        (JsonNumber::NegInt(a), JsonNumber::NegInt(b)) => *a == *b,
        (JsonNumber::Float(a), JsonNumber::Float(b)) => f64_bits_eq(a.0, b.0),
        _ => false,
    }
}

impl PartialEq for JsonNumber {
    fn eq(&self, other: &Self) -> (r: bool) {
        number_eq(self, other)
    }
}

impl vstd::std_specs::cmp::PartialEqSpecImpl for JsonNumber {
    open spec fn obeys_eq_spec() -> bool {
        true
    }

    open spec fn eq_spec(&self, other: &Self) -> bool {
        number_same(*self, *other)
    }
}

/// The members of a JSON object, as entries of a key and a value. Lookups
/// take the first entry with a key, and `==` compares objects as maps: the
/// same keys, each with an equal value, in whatever order.
#[derive(Clone, Debug, Default)]
pub struct JsonMap(pub Vec<(String, JsonValue)>);

/// A JSON value.
#[derive(Debug)]
pub enum JsonValue {
    Null,
    Bool(bool),
    Number(JsonNumber),
    String(String),
    Array(Vec<JsonValue>),
    Object(JsonMap),
}

/// Mathematical model of a JSON value.
pub enum Json {
    Null,
    Bool(bool),
    Number(JsonNumber),
    Str(Seq<char>),
    Array(Seq<Json>),
    Object(Seq<(Seq<char>, Json)>),
}

pub open spec fn json_of(v: &JsonValue) -> Json
    decreases v, 0nat,
{
    match v {
        JsonValue::Null => Json::Null,
        JsonValue::Bool(b) => Json::Bool(*b),
        JsonValue::Number(n) => Json::Number(*n),
        JsonValue::String(s) => Json::Str(s@),
        JsonValue::Array(a) => Json::Array(items_of(a@, a@.len())),
        JsonValue::Object(m) => Json::Object(entries_of(m.0@, m.0@.len())),
    }
}

pub open spec fn items_of(s: Seq<JsonValue>, n: nat) -> Seq<Json>
    decreases s, n,
{
    if n == 0 || n > s.len() {
        Seq::empty()
    } else {
        items_of(s, (n - 1) as nat).push(json_of(&s[n - 1]))
    }
}

pub open spec fn entries_of(s: Seq<(String, JsonValue)>, n: nat) -> Seq<(Seq<char>, Json)>
    decreases s, n,
{
    if n == 0 || n > s.len() {
        Seq::empty()
    } else {
        entries_of(s, (n - 1) as nat).push((s[n - 1].0@, json_of(&s[n - 1].1)))
    }
}

impl View for JsonValue {
    type V = Json;

    open spec fn view(&self) -> Json {
        json_of(self)
    }
}

/// The model of a sequence of items, element by element.
pub open spec fn items_view(s: Seq<JsonValue>) -> Seq<Json> {
    Seq::new(s.len(), |i: int| s[i]@)
}

/// The model of a sequence of entries, element by element.
pub open spec fn entries_view(s: Seq<(String, JsonValue)>) -> Seq<(Seq<char>, Json)> {
    Seq::new(s.len(), |i: int| (s[i].0@, s[i].1@))
}

proof fn lemma_items_of(s: Seq<JsonValue>, n: nat)
    requires
        n <= s.len(),
    ensures
        items_of(s, n) =~= items_view(s).take(n as int),
    decreases n,
{
    if n > 0 {
        lemma_items_of(s, (n - 1) as nat);
    }
}

proof fn lemma_entries_of(s: Seq<(String, JsonValue)>, n: nat)
    requires
        n <= s.len(),
    ensures
        entries_of(s, n) =~= entries_view(s).take(n as int),
    decreases n,
{
    if n > 0 {
        lemma_entries_of(s, (n - 1) as nat);
    }
}

/// The model of an array value lists the models of its items.
pub proof fn lemma_array_view(items: Vec<JsonValue>)
    ensures
        JsonValue::Array(items)@ == Json::Array(items_view(items@)),
{
    lemma_items_of(items@, items@.len());
    assert(items_view(items@).take(items@.len() as int) =~= items_view(items@));
}

/// The model of an object value lists the models of its entries.
pub proof fn lemma_object_view(entries: Vec<(String, JsonValue)>)
    ensures
        JsonValue::Object(JsonMap(entries))@ == Json::Object(entries_view(entries@)),
{
    lemma_entries_of(entries@, entries@.len());
    assert(entries_view(entries@).take(entries@.len() as int) =~= entries_view(entries@));
}

/// The value of the first entry with key `key`.
pub open spec fn lookup_entries(entries: Seq<(Seq<char>, Json)>, key: Seq<char>) -> Option<Json>
    decreases entries.len(),
{
    if entries.len() == 0 {
        None
    } else if entries[0].0 == key {
        Some(entries[0].1)
    } else {
        lookup_entries(entries.drop_first(), key)
    }
}

/// `value.get(key)`: the member `key` of an object; nothing for other values.
pub open spec fn json_get(value: Json, key: Seq<char>) -> Option<Json> {
    match value {
        Json::Object(entries) => lookup_entries(entries, key),
        _ => None,
    }
}

/// `value.get(index)`: the item at `index` of an array; nothing for other values.
pub open spec fn json_at(value: Json, index: int) -> Option<Json> {
    match value {
        Json::Array(items) => if 0 <= index < items.len() {
            Some(items[index])
        } else {
            None
        },
        _ => None,
    }
}

/// `value.as_u64()`: a non-negative integer number.
pub open spec fn json_as_u64(value: Json) -> Option<u64> {
    match value {
        Json::Number(JsonNumber::PosInt(n)) => Some(n),
        _ => None,
    }
}

/// A non-negative integer number.
pub open spec fn json_uint(n: nat) -> Json {
    Json::Number(JsonNumber::PosInt(n as u64))
}

/// A copy of `v` with the same model.
pub fn json_clone(v: &JsonValue) -> (r: JsonValue)
    ensures
        r@ == v@,
    decreases v,
{
    match v {
        JsonValue::Null => JsonValue::Null,
        JsonValue::Bool(b) => JsonValue::Bool(*b),
        JsonValue::Number(n) => JsonValue::Number(*n),
        JsonValue::String(s) => JsonValue::String(s.clone()),
        JsonValue::Array(items) => {
            let mut out: Vec<JsonValue> = Vec::new();
            let mut i: usize = 0;
            while i < items.len()
                invariant
                    *v == JsonValue::Array(*items),
                    i <= items.len(),
                    out.len() == i,
                    forall|k: int| 0 <= k < i ==> out@[k]@ == items@[k]@,
                decreases items.len() - i,
            {
                proof {
                    assert(*items == v->Array_0);
                    assert(decreases_to!(*v => v->Array_0));
                    assert(decreases_to!(*items => items@));
                    assert(decreases_to!(items@ => items@[i as int]));
                }
                out.push(json_clone(&items[i]));
                i = i + 1;
            }
            proof {
                lemma_array_view(*items);
                lemma_array_view(out);
                assert(items_view(out@) =~= items_view(items@));
            }
            JsonValue::Array(out)
        },
        JsonValue::Object(JsonMap(entries)) => {
            let mut out: Vec<(String, JsonValue)> = Vec::new();
            let mut i: usize = 0;
            while i < entries.len()
                invariant
                    *v == JsonValue::Object(JsonMap(*entries)),
                    i <= entries.len(),
                    out.len() == i,
                    forall|k: int| 0 <= k < i ==> out@[k].0@ == entries@[k].0@ && out@[k].1@ == entries@[k].1@,
                decreases entries.len() - i,
            {
                proof {
                    assert(*entries == v->Object_0.0);
                    assert(decreases_to!(*v => v->Object_0));
                    assert(decreases_to!(v->Object_0 => v->Object_0.0));
                    assert(decreases_to!(*entries => entries@));
                    assert(decreases_to!(entries@ => entries@[i as int]));
                    assert(decreases_to!(entries@[i as int] => entries@[i as int].1));
                }
                let key = entries[i].0.clone();
                let value = json_clone(&entries[i].1);
                out.push((key, value));
                i = i + 1;
            }
            proof {
                lemma_object_view(*entries);
                lemma_object_view(out);
                assert(entries_view(out@) =~= entries_view(entries@));
            }
            JsonValue::Object(JsonMap(out))
        },
    }
}

/// No entry before the one at `i` has its key.
pub open spec fn first_at(es: Seq<(Seq<char>, Json)>, i: int) -> bool {
    forall|k: int| 0 <= k < i ==> es[k].0 != es[i].0
}

/// Equality of JSON values as JSON defines it: numbers by `number_same`,
/// arrays item by item, objects as maps from key to value.
pub open spec fn json_same(a: Json, b: Json) -> bool
    decreases a, 0nat,
{
    match a {
        Json::Null => b matches Json::Null,
        Json::Bool(x) => b matches Json::Bool(y) && x == y,
        Json::Number(x) => b matches Json::Number(y) && number_same(x, y),
        Json::Str(x) => b matches Json::Str(y) && x == y,
        Json::Array(xs) => match b {
            Json::Array(ys) => xs.len() == ys.len() && items_same(xs, ys, xs.len()),
            _ => false,
        },
        Json::Object(xs) => match b {
            Json::Object(ys) => members_covered(xs, ys, xs.len()) && keys_present(ys, xs),
            _ => false,
        },
    }
}

/// The first `n` items of `xs` equal those of `ys`.
pub open spec fn items_same(xs: Seq<Json>, ys: Seq<Json>, n: nat) -> bool
    decreases xs, n,
{
    if n == 0 || n > xs.len() {
        true
    } else {
        items_same(xs, ys, (n - 1) as nat) && json_same(xs[n - 1], ys[n - 1])
    }
}

/// Each key first listed among the first `n` entries of `xs` has an equal
/// value in `ys`.
pub open spec fn members_covered(
    xs: Seq<(Seq<char>, Json)>,
    ys: Seq<(Seq<char>, Json)>,
    n: nat,
) -> bool
    decreases xs, n,
{
    if n == 0 || n > xs.len() {
        true
    } else {
        members_covered(xs, ys, (n - 1) as nat) && (first_at(xs, n - 1) ==> match lookup_entries(
            ys,
            xs[n - 1].0,
        ) {
            Some(v) => json_same(xs[n - 1].1, v),
            None => false,
        })
    }
}

/// Every key of `ys` is a key of `xs`.
pub open spec fn keys_present(ys: Seq<(Seq<char>, Json)>, xs: Seq<(Seq<char>, Json)>) -> bool {
    forall|j: int| 0 <= j < ys.len() ==> (#[trigger] lookup_entries(xs, ys[j].0)) is Some
}

/// Equality of two objects' entries as maps from key to value.
pub open spec fn entries_same(xs: Seq<(Seq<char>, Json)>, ys: Seq<(Seq<char>, Json)>) -> bool {
    members_covered(xs, ys, xs.len()) && keys_present(ys, xs)
}

proof fn lemma_members_covered_prefix(
    xs: Seq<(Seq<char>, Json)>,
    ys: Seq<(Seq<char>, Json)>,
    m: nat,
    n: nat,
)
    requires
        m <= n <= xs.len(),
        members_covered(xs, ys, n),
    ensures
        members_covered(xs, ys, m),
    decreases n,
{
    if m < n {
        lemma_members_covered_prefix(xs, ys, m, (n - 1) as nat);
    }
}

proof fn lemma_items_same_prefix(xs: Seq<Json>, ys: Seq<Json>, m: nat, n: nat)
    requires
        m <= n <= xs.len(),
        items_same(xs, ys, n),
    ensures
        items_same(xs, ys, m),
    decreases n,
{
    if m < n {
        lemma_items_same_prefix(xs, ys, m, (n - 1) as nat);
    }
}

/// The first entry with key `key` is at `p`: lookups give its value.
proof fn lemma_lookup_first(es: Seq<(Seq<char>, Json)>, key: Seq<char>, p: int)
    requires
        0 <= p < es.len(),
        es[p].0 == key,
        forall|k: int| 0 <= k < p ==> es[k].0 != key,
    ensures
        lookup_entries(es, key) == Some(es[p].1),
    decreases p,
{
    if p > 0 {
        lemma_lookup_first(es.drop_first(), key, p - 1);
    }
}

/// No entry has key `key`: lookups give nothing.
proof fn lemma_lookup_absent(es: Seq<(Seq<char>, Json)>, key: Seq<char>)
    requires
        forall|k: int| 0 <= k < es.len() ==> es[k].0 != key,
    ensures
        lookup_entries(es, key) is None,
    decreases es.len(),
{
    if es.len() > 0 {
        lemma_lookup_absent(es.drop_first(), key);
    }
}

/// The position of the first entry with key `key`.
pub fn find_entry(entries: &Vec<(String, JsonValue)>, key: &str) -> (r: Option<usize>)
    ensures
        match r {
            Some(p) => {
                &&& p < entries@.len()
                &&& entries@[p as int].0@ == key@
                &&& forall|k: int| 0 <= k < p ==> entries@[k].0@ != key@
                &&& lookup_entries(entries_view(entries@), key@) == Some(entries@[p as int].1@)
            },
            None => {
                &&& forall|k: int| 0 <= k < entries@.len() ==> entries@[k].0@ != key@
                &&& lookup_entries(entries_view(entries@), key@) is None
            },
        },
{
    let ghost es = entries_view(entries@);
    let mut i: usize = 0;
    while i < entries.len()
        invariant
            i <= entries@.len(),
            es == entries_view(entries@),
            forall|k: int| 0 <= k < i ==> entries@[k].0@ != key@,
        decreases entries.len() - i,
    {
        if text_eq(entries[i].0.as_str(), key) {
            proof {
                assert forall|k: int| 0 <= k < i implies es[k].0 != key@ by {
                    assert(es[k].0 == entries@[k].0@);
                }
                lemma_lookup_first(es, key@, i as int);
            }
            return Some(i);
        }
        i = i + 1;
    }
    proof {
        assert forall|k: int| 0 <= k < es.len() implies es[k].0 != key@ by {
            assert(es[k].0 == entries@[k].0@);
        }
        lemma_lookup_absent(es, key@);
    }
    None
}

/// Whether two values are equal as JSON values.
pub fn json_eq(a: &JsonValue, b: &JsonValue) -> (r: bool)
    ensures
        r == json_same(a@, b@),
    decreases a,
{
    match (a, b) {
        (JsonValue::Null, JsonValue::Null) => true,
        (JsonValue::Bool(x), JsonValue::Bool(y)) => *x == *y,
        (JsonValue::Number(x), JsonValue::Number(y)) => number_eq(x, y),
        (JsonValue::String(x), JsonValue::String(y)) => text_eq(x.as_str(), y.as_str()),
        (JsonValue::Array(xs), JsonValue::Array(ys)) => {
            proof {
                lemma_array_view(*xs);
                lemma_array_view(*ys);
            }
            let ghost vx = items_view(xs@);
            let ghost vy = items_view(ys@);
            if xs.len() != ys.len() {
                return false;
            }
            let mut i: usize = 0;
            while i < xs.len()
                invariant
                    *a == JsonValue::Array(*xs),
                    a@ == Json::Array(vx),
                    b@ == Json::Array(vy),
                    vx == items_view(xs@),
                    vy == items_view(ys@),
                    xs.len() == ys.len(),
                    i <= xs.len(),
                    items_same(vx, vy, i as nat),
                decreases xs.len() - i,
            {
                proof {
                    assert(decreases_to!(*a => *xs));
                    assert(decreases_to!(*xs => xs@));
                    assert(decreases_to!(xs@ => xs@[i as int]));
                }
                if !json_eq(&xs[i], &ys[i]) {
                    proof {
                        if items_same(vx, vy, vx.len()) {
                            lemma_items_same_prefix(vx, vy, (i + 1) as nat, vx.len());
                        }
                    }
                    return false;
                }
                i = i + 1;
            }
            true
        },
        (JsonValue::Object(xs), JsonValue::Object(ys)) => {
            proof {
                lemma_object_view(xs.0);
                lemma_object_view(ys.0);
                assert(decreases_to!(*a => *xs));
            }
            entries_eq(&xs.0, &ys.0)
        },
        _ => false,
    }
}

/// Whether two lists of entries hold the same keys, each with an equal value.
pub fn entries_eq(xs: &Vec<(String, JsonValue)>, ys: &Vec<(String, JsonValue)>) -> (r: bool)
    ensures
        r == entries_same(entries_view(xs@), entries_view(ys@)),
    decreases xs,
{
    let ghost vx = entries_view(xs@);
    let ghost vy = entries_view(ys@);
    let mut j: usize = 0;
    while j < ys.len()
        invariant
            j <= ys@.len(),
            vx == entries_view(xs@),
            vy == entries_view(ys@),
            forall|k: int| 0 <= k < j ==> (#[trigger] lookup_entries(vx, vy[k].0)) is Some,
        decreases ys.len() - j,
    {
        if find_entry(xs, ys[j].0.as_str()).is_none() {
            assert(lookup_entries(vx, vy[j as int].0) is None);
            return false;
        }
        j = j + 1;
    }
    assert(keys_present(vy, vx));
    let mut i: usize = 0;
    while i < xs.len()
        invariant
            i <= xs@.len(),
            vx == entries_view(xs@),
            vy == entries_view(ys@),
            keys_present(vy, vx),
            members_covered(vx, vy, i as nat),
        decreases xs.len() - i,
    {
        let first = find_entry(xs, xs[i].0.as_str());
        proof {
            assert(vx[i as int].0 == xs@[i as int].0@);
            assert(first_at(vx, i as int) <==> first == Some(i)) by {
                match first {
                    Some(p) => {
                        if p != i {
                            assert(vx[p as int].0 == xs@[p as int].0@);
                        } else {
                            assert forall|k: int| 0 <= k < i implies vx[k].0 != vx[i as int].0 by {
                                assert(vx[k].0 == xs@[k].0@);
                            }
                        }
                    },
                    None => {},
                }
            }
        }
        if first == Some(i) {
            match find_entry(ys, xs[i].0.as_str()) {
                None => {
                    proof {
                        if members_covered(vx, vy, vx.len()) {
                            lemma_members_covered_prefix(vx, vy, (i + 1) as nat, vx.len());
                        }
                    }
                    return false;
                },
                Some(q) => {
                    proof {
                        assert(decreases_to!(*xs => xs@));
                        assert(decreases_to!(xs@ => xs@[i as int]));
                        assert(decreases_to!(xs@[i as int] => xs@[i as int].1));
                    }
                    if !json_eq(&xs[i].1, &ys[q].1) {
                        proof {
                            if members_covered(vx, vy, vx.len()) {
                                lemma_members_covered_prefix(vx, vy, (i + 1) as nat, vx.len());
                            }
                        }
                        return false;
                    }
                },
            }
        }
        i = i + 1;
    }
    true
}

impl Clone for JsonValue {
    fn clone(&self) -> (r: Self)
        ensures
            r@ == self@,
    {
        json_clone(self)
    }
}

impl PartialEq for JsonValue {
    fn eq(&self, other: &Self) -> (r: bool) {
        json_eq(self, other)
    }
}

impl vstd::std_specs::cmp::PartialEqSpecImpl for JsonValue {
    open spec fn obeys_eq_spec() -> bool {
        true
    }

    open spec fn eq_spec(&self, other: &Self) -> bool {
        json_same(self@, other@)
    }
}

impl PartialEq for JsonMap {
    fn eq(&self, other: &Self) -> (r: bool) {
        entries_eq(&self.0, &other.0)
    }
}

impl vstd::std_specs::cmp::PartialEqSpecImpl for JsonMap {
    open spec fn obeys_eq_spec() -> bool {
        true
    }

    open spec fn eq_spec(&self, other: &Self) -> bool {
        entries_same(entries_view(self.0@), entries_view(other.0@))
    }
}

impl JsonValue {
    /// A non-negative integer, as `Value::from` gives it for unsigned integers.
    pub fn from_u64(n: u64) -> (r: JsonValue)
        ensures
            r@ == json_uint(n as nat),
    {
        JsonValue::Number(JsonNumber::PosInt(n))
    }

    /// A string value holding a copy of `s`.
    pub fn from_text(s: &str) -> (r: JsonValue)
        ensures
            r@ == Json::Str(s@),
    {
        JsonValue::String(s.to_owned())
    }

    /// An array of the given items.
    pub fn array(items: Vec<JsonValue>) -> (r: JsonValue)
        ensures
            r@ == Json::Array(items_view(items@)),
    {
        proof {
            lemma_array_view(items);
        }
        JsonValue::Array(items)
    }

    /// An object of the given entries, in order.
    pub fn object(entries: Vec<(String, JsonValue)>) -> (r: JsonValue)
        ensures
            r@ == Json::Object(entries_view(entries@)),
    {
        proof {
            lemma_object_view(entries);
        }
        JsonValue::Object(JsonMap(entries))
    }

    /// The member `key` of an object (`None` for a missing key or another kind
    /// of value), as `Value::get` with a string index.
    pub fn get(&self, key: &str) -> (r: Option<&JsonValue>)
        ensures
            r is None <==> json_get(self@, key@) is None,
            r matches Some(v) ==> json_get(self@, key@) == Some(v@),
    {
        match self {
            JsonValue::Object(JsonMap(entries)) => {
                proof {
                    lemma_object_view(*entries);
                }
                match find_entry(entries, key) {
                    Some(p) => Some(&entries[p].1),
                    None => None,
                }
            },
            _ => None,
        }
    }

    /// The item at `index` of an array (`None` out of range or for another
    /// kind of value), as `Value::get` with a numeric index.
    pub fn get_index(&self, index: usize) -> (r: Option<&JsonValue>)
        ensures
            r is None <==> json_at(self@, index as int) is None,
            r matches Some(v) ==> json_at(self@, index as int) == Some(v@),
    {
        match self {
            JsonValue::Array(items) => {
                proof {
                    lemma_array_view(*items);
                }
                if index < items.len() {
                    Some(&items[index])
                } else {
                    None
                }
            },
            _ => None,
        }
    }

    /// A non-negative integer number, as `Value::as_u64`.
    pub fn as_u64(&self) -> (r: Option<u64>)
        ensures
            r == json_as_u64(self@),
    {
        match self {
            JsonValue::Number(JsonNumber::PosInt(n)) => Some(*n),
            _ => None,
        }
    }

    /// The text of a string value, as `Value::as_str`.
    pub fn as_str(&self) -> (r: Option<&str>)
        ensures
            r is Some <==> self@ is Str,
            r matches Some(s) ==> self@ == Json::Str(s@),
    {
        match self {
            JsonValue::String(s) => Some(s.as_str()),
            _ => None,
        }
    }

    /// The value of a boolean, as `Value::as_bool`.
    pub fn as_bool(&self) -> (r: Option<bool>)
        ensures
            r is Some <==> self@ is Bool,
            r matches Some(b) ==> self@ == Json::Bool(b),
    {
        match self {
            JsonValue::Bool(b) => Some(*b),
            _ => None,
        }
    }

    /// The items of an array, as `Value::as_array`.
    pub fn as_array(&self) -> (r: Option<&Vec<JsonValue>>)
        ensures
            r is Some <==> self@ is Array,
            r matches Some(items) ==> self@ == Json::Array(items_view(items@)),
    {
        match self {
            JsonValue::Array(items) => {
                proof {
                    lemma_array_view(*items);
                }
                Some(items)
            },
            _ => None,
        }
    }
}

} // verus!
