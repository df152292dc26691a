//! A plain-value model of JSON documents.
//!
//! Parsing and printing are done by `serde_json`; the library reads and
//! builds documents through [`JsonValue`], whose view [`Json`] is what the
//! contracts of the rest of the crate speak of.
use vstd::prelude::*;
use crate::keys::{key_index, keys_of, find_key_index, lemma_key_index};

verus! {

/// The mathematical model of a JSON number, as `serde_json` holds it.
pub enum JsonNum {
    PosInt(u64),
    NegInt(i64),
    /// A non-integer number, by the text `serde_json` prints for it.
    Float(Seq<char>),
}

/// The mathematical model of a JSON document.
pub enum Json {
    Null,
    Bool(bool),
    Num(JsonNum),
    Str(Seq<char>),
    Arr(Seq<Json>),
    Obj(Seq<(Seq<char>, Json)>),
}

/// The text of a non-integer number; only values read from `serde_json`
/// carry one.
pub struct FloatText {
    text: String,
}

impl View for FloatText {
    type V = Seq<char>;

    closed spec fn view(&self) -> Seq<char> {
        self.text@
    }
}

pub enum JsonNumber {
    PosInt(u64),
    NegInt(i64),
    Float(FloatText),
}

impl View for JsonNumber {
    type V = JsonNum;

    open spec fn view(&self) -> JsonNum {
        match self {
            JsonNumber::PosInt(n) => JsonNum::PosInt(*n),
            JsonNumber::NegInt(n) => JsonNum::NegInt(*n),
            JsonNumber::Float(f) => JsonNum::Float(f@),
        }
    }
}

/// An executable JSON document.
pub enum JsonValue {
    Null,
    Bool(bool),
    Number(JsonNumber),
    String(String),
    Array(Vec<JsonValue>),
    Object(Vec<(String, JsonValue)>),
}

pub open spec fn value_model(v: &JsonValue) -> Json
    decreases v, 0nat,
{
    match v {
        JsonValue::Null => Json::Null,
        JsonValue::Bool(b) => Json::Bool(*b),
        JsonValue::Number(n) => Json::Num(n@),
        JsonValue::String(s) => Json::Str(s@),
        JsonValue::Array(a) => Json::Arr(items_model(a@, a@.len())),
        JsonValue::Object(o) => Json::Obj(entries_model(o@, o@.len())),
    }
}

/// The models of the first `n` items of `s`.
pub open spec fn items_model(s: Seq<JsonValue>, n: nat) -> Seq<Json>
    decreases s, n,
{
    if n == 0 || n > s.len() {
        Seq::empty()
    } else {
        items_model(s, (n - 1) as nat).push(value_model(&s[n - 1]))
    }
}

/// The models of the first `n` entries of `s`.
pub open spec fn entries_model(s: Seq<(String, JsonValue)>, n: nat) -> Seq<(Seq<char>, Json)>
    decreases s, n,
{
    if n == 0 || n > s.len() {
        Seq::empty()
    } else {
        entries_model(s, (n - 1) as nat).push((s[n - 1].0@, value_model(&s[n - 1].1)))
    }
}

impl View for JsonValue {
    type V = Json;

    open spec fn view(&self) -> Json {
        value_model(self)
    }
}

pub proof fn lemma_items_model(s: Seq<JsonValue>, n: nat)
    requires
        n <= s.len(),
    ensures
        items_model(s, n).len() == n,
        forall|i: int| 0 <= i < n ==> #[trigger] items_model(s, n)[i] == value_model(&s[i]),
    decreases n,
{
    if n > 0 {
        lemma_items_model(s, (n - 1) as nat);
    }
}

pub proof fn lemma_entries_model(s: Seq<(String, JsonValue)>, n: nat)
    requires
        n <= s.len(),
    ensures
        entries_model(s, n).len() == n,
        forall|i: int|
            0 <= i < n ==> #[trigger] entries_model(s, n)[i] == (s[i].0@, value_model(&s[i].1)),
    decreases n,
{
    if n > 0 {
        lemma_entries_model(s, (n - 1) as nat);
    }
}

/// The index of the first entry whose key is `key`, if any.
pub open spec fn find_key(entries: Seq<(Seq<char>, Json)>, key: Seq<char>) -> Option<int> {
    key_index(entries.map_values(|e: (Seq<char>, Json)| e.0), key)
}

/// The member `key` of an object; `None` for a missing key or a non-object.
pub open spec fn json_get(v: Json, key: Seq<char>) -> Option<Json> {
    match v {
        Json::Obj(entries) => match find_key(entries, key) {
            Some(i) => Some(entries[i].1),
            None => None,
        },
        _ => None,
    }
}

pub open spec fn json_as_str(v: Json) -> Option<Seq<char>> {
    match v {
        Json::Str(s) => Some(s),
        _ => None,
    }
}

pub open spec fn json_as_u64(v: Json) -> Option<u64> {
    match v {
        Json::Num(JsonNum::PosInt(n)) => Some(n),
        _ => None,
    }
}

pub open spec fn json_as_i64(v: Json) -> Option<i64> {
    match v {
        Json::Num(JsonNum::PosInt(n)) => if n <= i64::MAX {
            Some(n as i64)
        } else {
            None
        },
        Json::Num(JsonNum::NegInt(n)) => Some(n),
        _ => None,
    }
}

pub open spec fn json_as_bool(v: Json) -> Option<bool> {
    match v {
        Json::Bool(b) => Some(b),
        _ => None,
    }
}

/// `value.get(key).and_then(as_str)`
pub open spec fn get_str(v: Json, key: Seq<char>) -> Option<Seq<char>> {
    match json_get(v, key) {
        Some(m) => json_as_str(m),
        None => None,
    }
}

/// `value.get(key).and_then(as_u64)`
pub open spec fn get_u64(v: Json, key: Seq<char>) -> Option<u64> {
    match json_get(v, key) {
        Some(m) => json_as_u64(m),
        None => None,
    }
}

/// `value.get(key).and_then(as_i64)`
pub open spec fn get_i64(v: Json, key: Seq<char>) -> Option<i64> {
    match json_get(v, key) {
        Some(m) => json_as_i64(m),
        None => None,
    }
}

/// `value.get(key).and_then(as_bool)`
pub open spec fn get_bool(v: Json, key: Seq<char>) -> Option<bool> {
    match json_get(v, key) {
        Some(m) => json_as_bool(m),
        None => None,
    }
}

/// The object obtained by setting `key` to `val`: an existing member is
/// replaced in place, a new one goes at the end.
pub open spec fn json_insert(
    entries: Seq<(Seq<char>, Json)>,
    key: Seq<char>,
    val: Json,
) -> Seq<(Seq<char>, Json)> {
    match find_key(entries, key) {
        Some(i) => entries.update(i, (key, val)),
        None => entries.push((key, val)),
    }
}

/// The document of an integer.
pub open spec fn int_json(n: i64) -> Json {
    if n >= 0 {
        Json::Num(JsonNum::PosInt(n as u64))
    } else {
        Json::Num(JsonNum::NegInt(n))
    }
}

/// `a` sorts before `b`, character by character (the order of `String`,
/// since UTF-8 keeps the order of code points).
pub open spec fn key_lt(a: Seq<char>, b: Seq<char>) -> bool
    decreases a.len(),
{
    if a.len() == 0 {
        b.len() > 0
    } else if b.len() == 0 {
        false
    } else if a[0] != b[0] {
        (a[0] as u32) < (b[0] as u32)
    } else {
        key_lt(a.drop_first(), b.drop_first())
    }
}

/// What `serde_json` prints for the number `serde_json::Number::from_str`
/// reads from `t` (by `Number`'s `Display`, the same text its serializer
/// writes); `None` where it reads no number.
pub uninterp spec fn float_reprint(t: Seq<char>) -> Option<Seq<char>>;

/// The position of the first `.`, if any.
pub open spec fn dot_index(s: Seq<char>) -> Option<int>
    decreases s.len(),
{
    if s.len() == 0 {
        None
    } else if s[0] == '.' {
        Some(0)
    } else {
        match dot_index(s.drop_first()) {
            Some(i) => Some(i + 1),
            None => None,
        }
    }
}

/// A number text that `serde_json` reads exactly: an optional `-`, digits,
/// a point and digits, where all the digits read as one number stay below
/// 2^53 and at most 22 follow the point. Its reader then makes the number
/// with one rounded multiplication or division of exact values, so it gets
/// the double nearest to the text.
pub open spec fn exact_float_text(t: Seq<char>) -> bool {
    let u = if t.len() > 0 && t[0] == '-' {
        t.drop_first()
    } else {
        t
    };
    match dot_index(u) {
        Some(k) => {
            &&& 0 < k && k + 1 < u.len()
            &&& crate::text::all_digits(u.take(k))
            &&& crate::text::all_digits(u.skip(k + 1))
            &&& crate::text::numeral_value(u.take(k) + u.skip(k + 1)) < 0x20_0000_0000_0000
            &&& u.len() - (k + 1) <= 22
        },
        None => false,
    }
}

/// A document as `serde_json` reads it back from its own printing:
/// non-integer numbers only with a text that it reads exactly and prints
/// again as it stands, negative integers only where held as negative, and
/// the members of each object in strictly increasing order of keys (the
/// order of `serde_json`'s map).
pub open spec fn plain_json(v: Json) -> bool
    decreases v,
{
    match v {
        Json::Num(JsonNum::Float(t)) => exact_float_text(t) && float_reprint(t) == Some(t),
        Json::Num(JsonNum::NegInt(i)) => i < 0,
        Json::Arr(items) => forall|k: int| 0 <= k < items.len() ==> plain_json(#[trigger] items[k]),
        Json::Obj(e) => {
            &&& forall|k: int| 0 <= k < e.len() - 1 ==> key_lt(#[trigger] e[k].0, e[k + 1].0)
            &&& forall|k: int| 0 <= k < e.len() ==> plain_json(#[trigger] e[k].1)
        },
        _ => true,
    }
}

/// A document as `serde_json::from_str` gives it: a non-integer number
/// whose text it reads exactly prints again as that text, negative integers
/// are held as negative, and object members come in strictly increasing
/// order of keys.
pub open spec fn read_form(v: Json) -> bool
    decreases v,
{
    match v {
        Json::Num(JsonNum::Float(t)) => exact_float_text(t) ==> float_reprint(t) == Some(t),
        Json::Num(JsonNum::NegInt(i)) => i < 0,
        Json::Arr(items) => forall|k: int| 0 <= k < items.len() ==> read_form(#[trigger] items[k]),
        Json::Obj(e) => {
            &&& forall|k: int| 0 <= k < e.len() - 1 ==> key_lt(#[trigger] e[k].0, e[k + 1].0)
            &&& forall|k: int| 0 <= k < e.len() ==> read_form(#[trigger] e[k].1)
        },
        _ => true,
    }
}

/// Every non-integer number of the document has a text `serde_json` reads
/// exactly.
pub open spec fn exact_floats(v: Json) -> bool
    decreases v,
{
    match v {
        Json::Num(JsonNum::Float(t)) => exact_float_text(t),
        Json::Arr(items) => forall|k: int| 0 <= k < items.len() ==> exact_floats(#[trigger] items[k]),
        Json::Obj(e) => forall|k: int| 0 <= k < e.len() ==> exact_floats(#[trigger] e[k].1),
        _ => true,
    }
}

/// A document as `serde_json` reads it, whose non-integer numbers all have
/// texts it reads exactly, reads back from its printing.
pub proof fn lemma_read_form_plain(v: Json)
    requires
        read_form(v),
        exact_floats(v),
    ensures
        plain_json(v),
    decreases v,
{
    match v {
        Json::Arr(items) => {
            assert forall|k: int| 0 <= k < items.len() implies plain_json(#[trigger] items[k]) by {
                lemma_read_form_plain(items[k]);
            }
        },
        Json::Obj(e) => {
            assert forall|k: int| 0 <= k < e.len() implies plain_json(#[trigger] e[k].1) by {
                lemma_read_form_plain(e[k].1);
            }
        },
        _ => {},
    }
}

/// A document nested at most `n` deep is nested at most `m` deep for any
/// `m` above `n`.
pub proof fn lemma_nested_within_more(v: Json, n: nat, m: nat)
    requires
        nested_within(v, n),
        n <= m,
    ensures
        nested_within(v, m),
    decreases v,
{
    match v {
        Json::Arr(items) => {
            assert forall|k: int| 0 <= k < items.len() implies nested_within(
                #[trigger] items[k],
                (m - 1) as nat,
            ) by {
                lemma_nested_within_more(items[k], (n - 1) as nat, (m - 1) as nat);
            }
        },
        Json::Obj(e) => {
            assert forall|k: int| 0 <= k < e.len() implies nested_within(
                #[trigger] e[k].1,
                (m - 1) as nat,
            ) by {
                lemma_nested_within_more(e[k].1, (n - 1) as nat, (m - 1) as nat);
            }
        },
        _ => {},
    }
}

/// A member of a document as `serde_json` reads it is such a document too,
/// nested one level less.
pub proof fn lemma_member_read_form(v: Json, key: Seq<char>, n: nat)
    requires
        read_form(v),
        nested_within(v, n),
        json_get(v, key) is Some,
    ensures
        read_form(json_get(v, key).unwrap()),
        n >= 1 && nested_within(json_get(v, key).unwrap(), (n - 1) as nat),
{
    if let Json::Obj(e) = v {
        let keys = e.map_values(|x: (Seq<char>, Json)| x.0);
        lemma_key_index(keys, key);
        let i = find_key(e, key).unwrap();
        assert(json_get(v, key).unwrap() == e[i].1);
    }
}

/// Arrays and objects are nested at most `n` deep.
pub open spec fn nested_within(v: Json, n: nat) -> bool
    decreases v,
{
    match v {
        Json::Arr(items) => n >= 1 && forall|k: int|
            0 <= k < items.len() ==> nested_within(#[trigger] items[k], (n - 1) as nat),
        Json::Obj(e) => n >= 1 && forall|k: int|
            0 <= k < e.len() ==> nested_within(#[trigger] e[k].1, (n - 1) as nat),
        _ => true,
    }
}

/// What `serde_json::from_str::<serde_json::Value>` gives for a text:
/// `None` where it reports an error.
pub uninterp spec fn json_parse_result(text: Seq<char>) -> Option<Json>;

/// The compact text `serde_json::to_string` prints for a document.
pub uninterp spec fn json_text(v: Json) -> Seq<char>;

#[verifier::external_type_specification]
#[verifier::external_body]
pub struct ExSerdeJsonValue(serde_json::Value);

#[verifier::external_type_specification]
#[verifier::external_body]
pub struct ExSerdeJsonNumber(serde_json::Number);

/// Moves a `serde_json::Number` into the library's model: an integer by its
/// value, any other number by the text `serde_json` prints for it. Claimed:
/// such a text, where `serde_json` reads it exactly, reads back to the same
/// number and so prints again as itself (`zmij` prints the shortest text
/// that rounds to the number).
#[verifier::external_body]
fn from_serde_number(n: serde_json::Number) -> (r: JsonNumber)
    ensures
        r matches JsonNumber::Float(f) ==> (exact_float_text(f@) ==> float_reprint(f@) == Some(
            f@,
        )),
{
    match (n.as_u64(), n.as_i64()) {
        (Some(u), _) => JsonNumber::PosInt(u),
        (None, Some(i)) => JsonNumber::NegInt(i),
        (None, None) => JsonNumber::Float(FloatText { text: n.to_string() }),
    }
}

/// Moves a `serde_json::Value` into the library's model, one node for one node.
#[verifier::external_body]
fn from_serde(v: serde_json::Value) -> JsonValue {
    match v {
        serde_json::Value::Null => JsonValue::Null,
        serde_json::Value::Bool(b) => JsonValue::Bool(b),
        serde_json::Value::Number(n) => JsonValue::Number(from_serde_number(n)),
        serde_json::Value::String(s) => JsonValue::String(s),
        serde_json::Value::Array(a) => JsonValue::Array(a.into_iter().map(from_serde).collect()),
        serde_json::Value::Object(o) => JsonValue::Object(
            o.into_iter().map(|(k, v)| (k, from_serde(v))).collect(),
        ),
    }
}

/// Moves a number of the library into a `serde_json::Value`; a non-integer
/// number is read back from its text.
#[verifier::external_body]
fn number_to_serde(n: &JsonNumber) -> serde_json::Value {
    match n {
        JsonNumber::PosInt(u) => serde_json::Value::Number((*u).into()),
        JsonNumber::NegInt(i) => serde_json::Value::Number((*i).into()),
        JsonNumber::Float(f) => f.text.parse::<serde_json::Number>().map(
            serde_json::Value::Number,
        ).unwrap_or(serde_json::Value::Null),
    }
}

/// Moves a number of the library into a `serde_yaml::Value`; a non-integer
/// number is read back from its text.
#[verifier::external_body]
pub(crate) fn number_to_yaml(n: &JsonNumber) -> serde_yaml::Value {
    match n {
        JsonNumber::PosInt(u) => serde_yaml::Value::Number((*u).into()),
        JsonNumber::NegInt(i) => serde_yaml::Value::Number((*i).into()),
        JsonNumber::Float(f) => f.text.parse().map_or(serde_yaml::Value::Null, serde_yaml::Value::Number),
    }
}

/// Moves a document of the library into a `serde_json::Value`, one node for
/// one node.
#[verifier::external_body]
fn to_serde(v: &JsonValue) -> serde_json::Value {
    match v {
        JsonValue::Null => serde_json::Value::Null,
        JsonValue::Bool(b) => serde_json::Value::Bool(*b),
        JsonValue::Number(n) => number_to_serde(n),
        JsonValue::String(s) => serde_json::Value::String(s.clone()),
        JsonValue::Array(a) => serde_json::Value::Array(a.iter().map(to_serde).collect()),
        JsonValue::Object(o) => serde_json::Value::Object(
            o.iter().map(|(k, v)| (k.clone(), to_serde(v))).collect(),
        ),
    }
}

/// `serde_json::from_str`: parses a JSON text. The result is named by
/// [`json_parse_result`]. Stated besides: the document is in the form the
/// parser gives ([`read_form`]: object keys in its map's order, negative
/// integers held as negative, non-integer numbers by the text they print
/// as), and nests at most 127 deep (the parser's recursion limit is 128).
#[verifier::external_body]
pub fn parse_json(text: &str) -> (r: Option<JsonValue>)
    ensures
        r is None <==> json_parse_result(text@) is None,
        r matches Some(v) ==> json_parse_result(text@) == Some(v@),
        r matches Some(v) ==> read_form(v@) && nested_within(v@, 127),
{
    match serde_json::from_str::<serde_json::Value>(text) {
        Ok(v) => Some(from_serde(v)),
        Err(_) => None,
    }
}

/// `serde_json::to_string`: prints a document in compact form. The text is
/// named by [`json_text`]. Stated besides: `serde_json::from_str` reads the
/// text back to the same document where the document is one `serde_json`
/// holds as it is ([`plain_json`]: object keys in its map's order, negative
/// integers held as negative, non-integer numbers only by a text its reader
/// reads exactly and its printer prints again as it stands) and nests at
/// most 127 deep (its parser's recursion limit is 128). Other non-integer
/// texts are left out: without the `float_roundtrip` feature the reader may
/// be off by one unit in the last place.
#[verifier::external_body]
pub fn json_to_string(v: &JsonValue) -> (s: String)
    ensures
        s@ == json_text(v@),
        plain_json(v@) && nested_within(v@, 127) ==> json_parse_result(s@) == Some(v@),
{
    serde_json::to_string(&to_serde(v)).unwrap_or_default()
}

/// The indented text `serde_json::to_string_pretty` prints for a document.
pub uninterp spec fn json_pretty_text(v: Json) -> Seq<char>;

/// `serde_json::to_string_pretty`: prints a document over several lines,
/// indented by two spaces. The text is named by [`json_pretty_text`];
/// nothing more of it is stated here.
#[verifier::external_body]
pub(crate) fn json_to_string_pretty(v: &JsonValue) -> (s: String)
    ensures
        s@ == json_pretty_text(v@),
{
    serde_json::to_string_pretty(&to_serde(v)).unwrap_or_default()
}

impl JsonNumber {
    /// A copy of the number.
    pub fn copy(&self) -> (r: JsonNumber)
        ensures
            r@ == self@,
    {
        match self {
            JsonNumber::PosInt(u) => JsonNumber::PosInt(*u),
            JsonNumber::NegInt(i) => JsonNumber::NegInt(*i),
            JsonNumber::Float(f) => JsonNumber::Float(FloatText { text: f.text.clone() }),
        }
    }

    /// The floating-point zero, which `serde_json` prints as `0.0`.
    pub fn float_zero() -> (r: JsonNumber)
        ensures
            r@ == JsonNum::Float("0.0"@),
    {
        JsonNumber::Float(FloatText { text: crate::text::owned("0.0") })
    }

    /// The text of the number.
    pub fn to_text(&self) -> (r: String)
        ensures
            match self@ {
                JsonNum::PosInt(n) => r@ == crate::text::decimal(n as nat),
                JsonNum::NegInt(n) => if n < 0 {
                    r@ == "-"@ + crate::text::decimal((-n) as nat)
                } else {
                    r@ == crate::text::decimal(n as nat)
                },
                JsonNum::Float(t) => r@ == t,
            },
    {
        match self {
            JsonNumber::PosInt(n) => crate::text::u64_to_string(*n),
            JsonNumber::NegInt(n) => {
                if *n >= 0 {
                    return crate::text::u64_to_string(*n as u64);
                }
                let mut s = crate::text::owned("-");
                let m: u64 = if *n == i64::MIN {
                    0x8000_0000_0000_0000u64
                } else {
                    (-*n) as u64
                };
                crate::text::push_decimal(&mut s, m);
                s
            },
            JsonNumber::Float(f) => f.text.clone(),
        }
    }
}

impl JsonValue {
    /// A deep copy.
    #[verifier::loop_isolation(false)]
    pub fn copy(&self) -> (r: JsonValue)
        ensures
            r@ == self@,
        decreases self,
    {
        match self {
            JsonValue::Null => JsonValue::Null,
            JsonValue::Bool(b) => JsonValue::Bool(*b),
            JsonValue::Number(n) => JsonValue::Number(n.copy()),
            JsonValue::String(s) => JsonValue::String(s.clone()),
            JsonValue::Array(a) => {
                let mut out: Vec<JsonValue> = Vec::new();
                let mut i: usize = 0;
                while i < a.len()
                    invariant
                        i <= a.len(),
                        out@.len() == i,
                        forall|j: int| 0 <= j < i ==> #[trigger] out@[j]@ == a@[j]@,
                    decreases a.len() - i,
                {
                    proof {
                        assert(decreases_to!(self => a@[i as int]));
                    }
                    out.push(a[i].copy());
                    i = i + 1;
                }
                proof {
                    lemma_items_model(a@, a@.len());
                    lemma_items_model(out@, out@.len());
                    assert forall|j: int| 0 <= j < a@.len() implies items_model(out@, out@.len())[j]
                        == items_model(a@, a@.len())[j] by {
                        assert(out@[j]@ == a@[j]@);
                    }
                    assert(items_model(out@, out@.len()) =~= items_model(a@, a@.len()));
                }
                JsonValue::Array(out)
            },
            JsonValue::Object(o) => {
                let mut out: Vec<(String, JsonValue)> = Vec::new();
                let mut i: usize = 0;
                while i < o.len()
                    invariant
                        i <= o.len(),
                        out@.len() == i,
                        forall|j: int|
                            #![trigger out@[j]]
                            0 <= j < i ==> out@[j].0@ == o@[j].0@ && out@[j].1@ == o@[j].1@,
                    decreases o.len() - i,
                {
                    let k = o[i].0.clone();
                    proof {
                        assert(decreases_to!(self => o@[i as int].1));
                    }
                    let v = o[i].1.copy();
                    out.push((k, v));
                    i = i + 1;
                }
                proof {
                    lemma_entries_model(o@, o@.len());
                    lemma_entries_model(out@, out@.len());
                    assert forall|j: int| 0 <= j < o@.len() implies entries_model(out@, out@.len())[j]
                        == entries_model(o@, o@.len())[j] by {
                        assert(out@[j].0@ == o@[j].0@ && out@[j].1@ == o@[j].1@);
                    }
                    assert(entries_model(out@, out@.len()) =~= entries_model(o@, o@.len()));
                }
                JsonValue::Object(out)
            },
        }
    }
}


/// The keys of the model of an object are the views of its keys.
pub proof fn lemma_entry_keys(o: Seq<(String, JsonValue)>)
    ensures
        entries_model(o, o.len()).map_values(|e: (Seq<char>, Json)| e.0) == keys_of(o),
        entries_model(o, o.len()).len() == o.len(),
        forall|j: int|
            0 <= j < o.len() ==> #[trigger] entries_model(o, o.len())[j] == (
                o[j].0@,
                value_model(&o[j].1),
            ),
{
    lemma_entries_model(o, o.len());
    assert(entries_model(o, o.len()).map_values(|e: (Seq<char>, Json)| e.0) =~= keys_of(o));
}

/// Setting a key that no member has appends it.
pub proof fn lemma_insert_new_key(entries: Seq<(Seq<char>, Json)>, key: Seq<char>, val: Json)
    requires
        forall|i: int| 0 <= i < entries.len() ==> #[trigger] entries[i].0 != key,
    ensures
        json_insert(entries, key, val) == entries.push((key, val)),
{
    let keys = entries.map_values(|e: (Seq<char>, Json)| e.0);
    assert forall|j: int| 0 <= j < keys.len() implies keys[j] != key by {
        assert(keys[j] == entries[j].0);
    }
    crate::keys::lemma_key_index_first(keys, key, keys.len() as int);
}

impl JsonValue {
    pub open spec fn obj_entries(&self) -> Seq<(Seq<char>, Json)> {
        match self@ {
            Json::Obj(e) => e,
            _ => Seq::empty(),
        }
    }

    /// `Value::get`: the member `key` of an object.
    pub fn get(&self, key: &str) -> (r: Option<&JsonValue>)
        ensures
            r is None <==> json_get(self@, key@) is None,
            r matches Some(v) ==> json_get(self@, key@) == Some(v@),
    {
        match self {
            JsonValue::Object(o) => {
                proof {
                    lemma_entry_keys(o@);
                }
                match find_key_index(o, key) {
                    Some(i) => Some(&o[i].1),
                    None => None,
                }
            },
            _ => None,
        }
    }

    /// `Value::as_str`
    pub fn as_str(&self) -> (r: Option<&str>)
        ensures
            r is None <==> json_as_str(self@) is None,
            r matches Some(s) ==> json_as_str(self@) == Some(s@),
    {
        match self {
            JsonValue::String(s) => Some(s.as_str()),
            _ => None,
        }
    }

    /// `Value::as_u64`
    pub fn as_u64(&self) -> (r: Option<u64>)
        ensures
            r == json_as_u64(self@),
    {
        match self {
            JsonValue::Number(JsonNumber::PosInt(n)) => Some(*n),
            _ => None,
        }
    }

    /// `Value::as_i64`
    pub fn as_i64(&self) -> (r: Option<i64>)
        ensures
            r == json_as_i64(self@),
    {
        match self {
            JsonValue::Number(JsonNumber::PosInt(n)) => {
                if *n <= 0x7fff_ffff_ffff_ffffu64 {
                    Some(*n as i64)
                } else {
                    None
                }
            },
            JsonValue::Number(JsonNumber::NegInt(n)) => Some(*n),
            _ => None,
        }
    }

    /// `Value::as_bool`
    pub fn as_bool(&self) -> (r: Option<bool>)
        ensures
            r == json_as_bool(self@),
    {
        match self {
            JsonValue::Bool(b) => Some(*b),
            _ => None,
        }
    }

    /// Whether the value is an object.
    pub fn is_object(&self) -> (r: bool)
        ensures
            r == (self@ is Obj),
    {
        match self {
            JsonValue::Object(_) => true,
            _ => false,
        }
    }

    /// An empty object.
    pub fn new_object() -> (r: JsonValue)
        ensures
            r@ == Json::Obj(Seq::empty()),
    {
        let v: Vec<(String, JsonValue)> = Vec::new();
        proof {
            assert(entries_model(v@, 0) =~= Seq::<(Seq<char>, Json)>::empty());
        }
        JsonValue::Object(v)
    }

    /// A string value.
    pub fn from_str(s: &str) -> (r: JsonValue)
        ensures
            r@ == Json::Str(s@),
    {
        JsonValue::String(crate::text::owned(s))
    }

    /// A non-negative integer value.
    pub fn from_u64(n: u64) -> (r: JsonValue)
        ensures
            r@ == Json::Num(JsonNum::PosInt(n)),
    {
        JsonValue::Number(JsonNumber::PosInt(n))
    }

    /// An integer value: non-negative integers are held as `serde_json`
    /// holds them, as unsigned.
    pub fn from_i64(n: i64) -> (r: JsonValue)
        ensures
            r@ == int_json(n),
    {
        if n >= 0 {
            JsonValue::Number(JsonNumber::PosInt(n as u64))
        } else {
            JsonValue::Number(JsonNumber::NegInt(n))
        }
    }

    /// A boolean value.
    pub fn from_bool(b: bool) -> (r: JsonValue)
        ensures
            r@ == Json::Bool(b),
    {
        JsonValue::Bool(b)
    }

    /// `Map::insert` on an object: sets the member `key` to `val`.
    /// A value that is not an object is left unchanged.
    pub fn insert(&mut self, key: &str, val: JsonValue)
        ensures
            old(self)@ is Obj ==> final(self)@ == Json::Obj(
                json_insert(old(self).obj_entries(), key@, val@),
            ),
            !(old(self)@ is Obj) ==> final(self)@ == old(self)@,
    {
        match self {
            JsonValue::Object(o) => {
                proof {
                    lemma_entry_keys(o@);
                }
                let ghost entries = entries_model(o@, o@.len());
                let ghost vm = val@;
                match find_key_index(o, key) {
                    Some(i) => {
                        proof {
                            lemma_key_index(keys_of(o@), key@);
                        }
                        o.set(i, (crate::text::owned(key), val));
                        proof {
                            lemma_entries_model(o@, o@.len());
                            assert(entries_model(o@, o@.len()) =~= entries.update(
                                i as int,
                                (key@, vm),
                            ));
                        }
                    },
                    None => {
                        o.push((crate::text::owned(key), val));
                        proof {
                            lemma_entries_model(o@, o@.len());
                            assert(entries_model(o@, o@.len()) =~= entries.push((key@, vm)));
                        }
                    },
                }
            },
            _ => {},
        }
    }
}


/// Reading a member right after setting it gives the value set; the other
/// members read as before.
pub proof fn lemma_get_after_insert(
    entries: Seq<(Seq<char>, Json)>,
    key: Seq<char>,
    val: Json,
    other: Seq<char>,
)
    requires
        other != key,
    ensures
        json_get(Json::Obj(json_insert(entries, key, val)), key) == Some(val),
        json_get(Json::Obj(json_insert(entries, key, val)), other) == json_get(
            Json::Obj(entries),
            other,
        ),
{
    let keys = entries.map_values(|e: (Seq<char>, Json)| e.0);
    crate::keys::lemma_key_index(keys, key);
    crate::keys::lemma_key_index(keys, other);
    match find_key(entries, key) {
        Some(i) => {
            let e2 = entries.update(i, (key, val));
            let k2 = e2.map_values(|e: (Seq<char>, Json)| e.0);
            assert(k2 =~= keys.update(i, key));
            assert forall|j: int| 0 <= j < i implies k2[j] != key by {
                assert(k2[j] == keys[j]);
            }
            crate::keys::lemma_key_index_first(k2, key, i);
            crate::keys::lemma_key_index(k2, other);
            match find_key(entries, other) {
                Some(m) => {
                    assert forall|j: int| 0 <= j < m implies k2[j] != other by {
                        if j != i {
                            assert(k2[j] == keys[j]);
                        }
                    }
                    assert(k2[m] == other) by {
                        assert(m != i);
                    }
                    crate::keys::lemma_key_index_first(k2, other, m);
                },
                None => {
                    assert forall|j: int| 0 <= j < k2.len() implies k2[j] != other by {
                        if j != i {
                            assert(k2[j] == keys[j]);
                        }
                    }
                    crate::keys::lemma_key_index_first(k2, other, k2.len() as int);
                },
            }
        },
        None => {
            let e2 = entries.push((key, val));
            let k2 = e2.map_values(|e: (Seq<char>, Json)| e.0);
            assert(k2 =~= keys.push(key));
            assert forall|j: int| 0 <= j < keys.len() implies k2[j] != key by {
                assert(k2[j] == keys[j]);
            }
            crate::keys::lemma_key_index_first(k2, key, keys.len() as int);
            crate::keys::lemma_key_index_push_other(keys, key, other);
        },
    }
}

} // verus!
