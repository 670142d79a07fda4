use vstd::prelude::*;

use serde_json::Value as SjValue;

verus! {

/// A generic JSON value, as handed over by the external JSON decoder.
///
/// Numbers are carried as their canonical decimal text, so the whole tree
/// holds plain values only; an object is an ordered sequence of key/value
/// entries.
#[derive(Debug, PartialEq)]
pub enum Json {
    Null,
    Bool(bool),
    Num(String),
    Str(String),
    Arr(Vec<Json>),
    Obj(Vec<(String, Json)>),
}

/// A JSON object: an ordered string-keyed sequence of JSON values.
pub type JsonObject = Vec<(String, Json)>;

/// Mathematical model of a JSON value: every string becomes a `Seq<char>`.
pub enum JsonV {
    Null,
    Bool(bool),
    Num(Seq<char>),
    Str(Seq<char>),
    Arr(Seq<JsonV>),
    Obj(Seq<(Seq<char>, JsonV)>),
}

/// Model of one object entry.
pub type EntryV = (Seq<char>, JsonV);

pub open spec fn json_view(j: Json) -> JsonV
    decreases j,
{
    match j {
        Json::Null => JsonV::Null,
        Json::Bool(b) => JsonV::Bool(b),
        Json::Num(s) => JsonV::Num(s@),
        Json::Str(s) => JsonV::Str(s@),
        Json::Arr(a) => JsonV::Arr(json_view_seq(a@)),
        Json::Obj(m) => JsonV::Obj(json_view_entries(m@)),
    }
}

pub open spec fn json_view_seq(s: Seq<Json>) -> Seq<JsonV>
    decreases s,
{
    if s.len() == 0 {
        Seq::empty()
    } else {
        seq![json_view(s[0])] + json_view_seq(s.subrange(1, s.len() as int))
    }
}

pub open spec fn json_view_entries(s: Seq<(String, Json)>) -> Seq<EntryV>
    decreases s,
{
    if s.len() == 0 {
        Seq::empty()
    } else {
        seq![(s[0].0@, json_view(s[0].1))] + json_view_entries(s.subrange(1, s.len() as int))
    }
}

impl View for Json {
    type V = JsonV;

    open spec fn view(&self) -> JsonV {
        json_view(*self)
    }
}

pub proof fn lemma_view_seq_index(s: Seq<Json>)
    ensures
        json_view_seq(s).len() == s.len(),
        forall|i: int|
            #![trigger s[i]]
            #![trigger json_view_seq(s)[i]]
            0 <= i < s.len() ==> json_view_seq(s)[i] == json_view(s[i]),
    decreases s.len(),
{
    if s.len() > 0 {
        let sub = s.subrange(1, s.len() as int);
        lemma_view_seq_index(sub);
        assert forall|i: int| 0 <= i < s.len() implies json_view_seq(s)[i] == json_view(
            #[trigger] s[i],
        ) by {
            if i > 0 {
                assert(sub[i - 1] == s[i]);
                assert(json_view_seq(s)[i] == json_view_seq(sub)[i - 1]);
            }
        }
    }
}

pub proof fn lemma_view_entries_index(s: Seq<(String, Json)>)
    ensures
        json_view_entries(s).len() == s.len(),
        forall|i: int|
            #![trigger s[i]]
            #![trigger json_view_entries(s)[i]]
            0 <= i < s.len() ==> json_view_entries(s)[i] == (s[i].0@, json_view(s[i].1)),
    decreases s.len(),
{
    if s.len() > 0 {
        let sub = s.subrange(1, s.len() as int);
        lemma_view_entries_index(sub);
        assert forall|i: int| 0 <= i < s.len() implies json_view_entries(s)[i] == ((
        #[trigger] s[i]).0@, json_view(s[i].1)) by {
            if i > 0 {
                assert(sub[i - 1] == s[i]);
                assert(json_view_entries(s)[i] == json_view_entries(sub)[i - 1]);
            }
        }
    }
}

pub proof fn lemma_view_seq_push(s: Seq<Json>, x: Json)
    ensures
        json_view_seq(s.push(x)) == json_view_seq(s).push(json_view(x)),
{
    lemma_view_seq_index(s);
    lemma_view_seq_index(s.push(x));
    assert forall|i: int| 0 <= i < s.push(x).len() implies json_view_seq(s.push(x))[i]
        == json_view_seq(s).push(json_view(x))[i] by {
        assert(s.push(x)[i] == (if i < s.len() { s[i] } else { x }));
    }
    assert(json_view_seq(s.push(x)) =~= json_view_seq(s).push(json_view(x)));
}

pub proof fn lemma_view_entries_push(s: Seq<(String, Json)>, x: (String, Json))
    ensures
        json_view_entries(s.push(x)) == json_view_entries(s).push((x.0@, json_view(x.1))),
{
    lemma_view_entries_index(s);
    lemma_view_entries_index(s.push(x));
    assert forall|i: int| 0 <= i < s.push(x).len() implies json_view_entries(s.push(x))[i]
        == json_view_entries(s).push((x.0@, json_view(x.1)))[i] by {
        assert(s.push(x)[i] == (if i < s.len() { s[i] } else { x }));
    }
    assert(json_view_entries(s.push(x)) =~= json_view_entries(s).push((x.0@, json_view(x.1))));
}

// Sizes of modelled JSON values, used as termination measures by the
// recursive parsing specifications.
pub open spec fn jv_size(v: JsonV) -> nat
    decreases v,
{
    match v {
        JsonV::Arr(a) => 1 + jv_seq_size(a),
        JsonV::Obj(m) => 1 + jv_entries_size(m),
        _ => 1,
    }
}

pub open spec fn jv_seq_size(a: Seq<JsonV>) -> nat
    decreases a,
{
    if a.len() == 0 {
        0
    } else {
        jv_size(a[0]) + jv_seq_size(a.subrange(1, a.len() as int))
    }
}

pub open spec fn jv_entries_size(m: Seq<EntryV>) -> nat
    decreases m,
{
    if m.len() == 0 {
        0
    } else {
        jv_size(m[0].1) + jv_entries_size(m.subrange(1, m.len() as int))
    }
}

/// The value at key `k`: first match wins, as in a front-to-back scan.
pub open spec fn sget(m: Seq<EntryV>, k: Seq<char>) -> Option<JsonV>
    decreases m,
{
    if m.len() == 0 {
        None
    } else if m[0].0 == k {
        Some(m[0].1)
    } else {
        sget(m.subrange(1, m.len() as int), k)
    }
}

pub proof fn lemma_sget_size(m: Seq<EntryV>, k: Seq<char>)
    ensures
        sget(m, k) is Some ==> jv_size(sget(m, k)->0) <= jv_entries_size(m),
    decreases m.len(),
{
    if m.len() > 0 {
        lemma_sget_size(m.subrange(1, m.len() as int), k);
        lemma_jv_entries_size_skip(m);
    }
}

pub proof fn lemma_jv_entries_size_skip(m: Seq<EntryV>)
    ensures
        m.len() > 0 ==> jv_entries_size(m.subrange(1, m.len() as int)) <= jv_entries_size(m),
{
}

/// The sum of the element sizes bounds each element's size.
pub proof fn lemma_jv_seq_size_index(a: Seq<JsonV>, i: int)
    requires
        0 <= i < a.len(),
    ensures
        jv_size(a[i]) <= jv_seq_size(a),
    decreases a.len(),
{
    if i > 0 {
        lemma_jv_seq_size_index(a.subrange(1, a.len() as int), i - 1);
    }
}

// ---------------------------------------------------------------------
// Trusted boundary to the external JSON decoder.
// ---------------------------------------------------------------------
#[verifier::external_type_specification]
#[verifier::external_body]
pub struct ExValue(SjValue);

/// What decoding a JSON text yields: `None` exactly on malformed text.
pub uninterp spec fn json_of_text(s: Seq<char>) -> Option<JsonV>;

/// What rendering a JSON value as text yields.
pub uninterp spec fn text_of_json(j: JsonV) -> Seq<char>;

/// Relies on serde_json::Value: its six variants mirror `Json`'s, and
/// serde_json::Number renders as the number's canonical decimal text.
#[verifier::external_body]
fn json_of_value(v: SjValue) -> Json {
    match v {
        SjValue::Null => Json::Null,
        SjValue::Bool(b) => Json::Bool(b),
        SjValue::Number(n) => Json::Num(n.to_string()),
        SjValue::String(s) => Json::Str(s),
        SjValue::Array(a) => Json::Arr(a.into_iter().map(json_of_value).collect()),
        SjValue::Object(m) => Json::Obj(
            m.into_iter().map(|p| (p.0, json_of_value(p.1))).collect(),
        ),
    }
}

/// Relies on serde_json::Value and serde_json::Number::from_str: rebuilds
/// the external tree; number text that the external library cannot read
/// back (only possible on values built outside `parse`) becomes `null`.
#[verifier::external_body]
fn value_of_json(j: &Json) -> SjValue {
    match j {
        Json::Null => SjValue::Null,
        Json::Bool(b) => SjValue::Bool(*b),
        Json::Num(s) => match s.parse::<serde_json::Number>() {
            Ok(n) => SjValue::Number(n),
            Err(_) => SjValue::Null,
        },
        Json::Str(s) => SjValue::String(s.clone()),
        Json::Arr(a) => SjValue::Array(a.iter().map(value_of_json).collect()),
        Json::Obj(m) => SjValue::Object(
            m.iter().map(|p| (p.0.clone(), value_of_json(&p.1))).collect(),
        ),
    }
}

/// Relies on serde_json::from_str: decodes JSON text deterministically,
/// returning an error exactly when the text is not valid JSON.
#[verifier::external_body]
pub fn json_from_text(s: &str) -> (r: Option<Json>)
    ensures
        match r {
            Some(j) => json_of_text(s@) == Some(j@),
            None => json_of_text(s@) is None,
        },
{
    match serde_json::from_str::<SjValue>(s) {
        Ok(v) => Some(json_of_value(v)),
        Err(_) => None,
    }
}

/// Relies on serde_json::to_string: renders a JSON value as text, object
/// keys in their map order; the result is a function of the tree alone.
#[verifier::external_body]
pub fn json_to_text(j: &Json) -> (r: String)
    ensures
        r@ == text_of_json(j@),
{
    serde_json::to_string(&value_of_json(j)).unwrap_or(String::new())
}

} // verus!
