use vstd::prelude::*;

use crate::json::{
    sget, json_view, json_view_entries, json_view_seq, lemma_view_entries_index,
    lemma_view_entries_push,
    lemma_view_seq_index, lemma_view_seq_push, EntryV, Json, JsonObject, JsonV,
};
use crate::{Error, ErrorV, Number};

verus! {

// ---------------------------------------------------------------------
// Generic element-wise conversion with fail-fast error propagation.
// ---------------------------------------------------------------------
/// Converts the elements of `a` from index `i` on, stopping at the first
/// element that `f` rejects.
pub open spec fn try_map<A, B>(a: Seq<A>, i: int, f: spec_fn(A) -> Result<B, ErrorV>) -> Result<
    Seq<B>,
    ErrorV,
>
    decreases a.len() - i,
{
    if i < 0 || i >= a.len() {
        Ok(Seq::empty())
    } else {
        match f(a[i]) {
            Err(e) => Err(e),
            Ok(b) => match try_map(a, i + 1, f) {
                Err(e) => Err(e),
                Ok(r) => Ok(seq![b] + r),
            },
        }
    }
}

/// When every element converts, `try_map` is the plain map of `f`.
pub proof fn lemma_try_map_all_ok<A, B>(a: Seq<A>, i: int, f: spec_fn(A) -> Result<B, ErrorV>)
    requires
        0 <= i <= a.len(),
        forall|j: int| i <= j < a.len() ==> (#[trigger] f(a[j])) is Ok,
    ensures
        try_map(a, i, f) == Ok::<Seq<B>, ErrorV>(
            Seq::new((a.len() - i) as nat, |j: int| f(a[i + j])->Ok_0),
        ),
    decreases a.len() - i,
{
    if i < a.len() {
        lemma_try_map_all_ok(a, i + 1, f);
        assert(seq![f(a[i])->Ok_0] + Seq::new((a.len() - i - 1) as nat, |j: int| f(a[i + 1 + j])->Ok_0)
            =~= Seq::new((a.len() - i) as nat, |j: int| f(a[i + j])->Ok_0));
    } else {
        assert(try_map(a, i, f) == Ok::<Seq<B>, ErrorV>(Seq::empty()));
        assert(Seq::new(0, |j: int| f(a[i + j])->Ok_0) =~= Seq::<B>::empty());
    }
}

// ---------------------------------------------------------------------
// Views of number sequences at each nesting depth.
// ---------------------------------------------------------------------
pub open spec fn nums_view(s: Seq<Number>) -> Seq<Seq<char>> {
    Seq::new(s.len(), |i: int| s[i]@)
}

pub open spec fn poss_view(s: Seq<Vec<Number>>) -> Seq<Seq<Seq<char>>> {
    Seq::new(s.len(), |i: int| nums_view(s[i]@))
}

pub open spec fn lines_view(s: Seq<Vec<Vec<Number>>>) -> Seq<Seq<Seq<Seq<char>>>> {
    Seq::new(s.len(), |i: int| poss_view(s[i]@))
}

pub open spec fn polys_view(s: Seq<Vec<Vec<Vec<Number>>>>) -> Seq<Seq<Seq<Seq<Seq<char>>>>> {
    Seq::new(s.len(), |i: int| lines_view(s[i]@))
}

// ---------------------------------------------------------------------
// Coordinate extraction, one spec per nesting depth.
// ---------------------------------------------------------------------
/// Accepts a number, with a caller-chosen error for anything else.
pub open spec fn f_num(bad: ErrorV) -> spec_fn(JsonV) -> Result<Seq<char>, ErrorV> {
    |v: JsonV|
        match v {
            JsonV::Num(s) => Ok(s),
            _ => Err(bad),
        }
}

pub open spec fn spec_as_nums(a: Seq<JsonV>, bad: ErrorV) -> Result<Seq<Seq<char>>, ErrorV> {
    try_map(a, 0, f_num(bad))
}

/// A position: an array of numbers.
pub open spec fn spec_position(v: JsonV) -> Result<Seq<Seq<char>>, ErrorV> {
    match v {
        JsonV::Arr(a) => spec_as_nums(a, ErrorV::ExpectedF64Value),
        _ => Err(ErrorV::ExpectedArrayValue),
    }
}

pub open spec fn f_position() -> spec_fn(JsonV) -> Result<Seq<Seq<char>>, ErrorV> {
    |v: JsonV| spec_position(v)
}

pub open spec fn spec_positions(a: Seq<JsonV>) -> Result<Seq<Seq<Seq<char>>>, ErrorV> {
    try_map(a, 0, f_position())
}

pub open spec fn spec_pos_array(v: JsonV) -> Result<Seq<Seq<Seq<char>>>, ErrorV> {
    match v {
        JsonV::Arr(a) => spec_positions(a),
        _ => Err(ErrorV::ExpectedArrayValue),
    }
}

pub open spec fn f_pos_array() -> spec_fn(JsonV) -> Result<Seq<Seq<Seq<char>>>, ErrorV> {
    |v: JsonV| spec_pos_array(v)
}

pub open spec fn spec_lines(a: Seq<JsonV>) -> Result<Seq<Seq<Seq<Seq<char>>>>, ErrorV> {
    try_map(a, 0, f_pos_array())
}

pub open spec fn spec_lines_array(v: JsonV) -> Result<Seq<Seq<Seq<Seq<char>>>>, ErrorV> {
    match v {
        JsonV::Arr(a) => spec_lines(a),
        _ => Err(ErrorV::ExpectedArrayValue),
    }
}

pub open spec fn f_lines_array() -> spec_fn(JsonV) -> Result<Seq<Seq<Seq<Seq<char>>>>, ErrorV> {
    |v: JsonV| spec_lines_array(v)
}

pub open spec fn spec_polygons(a: Seq<JsonV>) -> Result<Seq<Seq<Seq<Seq<Seq<char>>>>>, ErrorV> {
    try_map(a, 0, f_lines_array())
}

pub open spec fn spec_polys_array(v: JsonV) -> Result<Seq<Seq<Seq<Seq<Seq<char>>>>>, ErrorV> {
    match v {
        JsonV::Arr(a) => spec_polygons(a),
        _ => Err(ErrorV::ExpectedArrayValue),
    }
}

// ---------------------------------------------------------------------
// Building JSON coordinate arrays back, one spec per nesting depth.
// ---------------------------------------------------------------------
pub open spec fn nums_to_json(p: Seq<Seq<char>>) -> Seq<JsonV> {
    Seq::new(p.len(), |i: int| JsonV::Num(p[i]))
}

pub open spec fn poss_to_json(s: Seq<Seq<Seq<char>>>) -> Seq<JsonV> {
    Seq::new(s.len(), |i: int| JsonV::Arr(nums_to_json(s[i])))
}

pub open spec fn lines_to_json(s: Seq<Seq<Seq<Seq<char>>>>) -> Seq<JsonV> {
    Seq::new(s.len(), |i: int| JsonV::Arr(poss_to_json(s[i])))
}

pub open spec fn polys_to_json(s: Seq<Seq<Seq<Seq<Seq<char>>>>>) -> Seq<JsonV> {
    Seq::new(s.len(), |i: int| JsonV::Arr(lines_to_json(s[i])))
}

// ---------------------------------------------------------------------
// Reserved keys; whatever else an object holds is a foreign member.
// ---------------------------------------------------------------------
#[derive(Clone, Copy)]
pub enum ObjKind {
    Geometry,
    Feature,
    Collection,
}

pub open spec fn is_reserved(kind: ObjKind, k: Seq<char>) -> bool {
    ||| k == "type"@
    ||| k == "bbox"@
    ||| k == "crs"@
    ||| match kind {
        ObjKind::Geometry => k == "coordinates"@ || k == "geometries"@,
        ObjKind::Feature => k == "geometry"@ || k == "properties"@ || k == "id"@,
        ObjKind::Collection => k == "features"@,
    }
}

pub fn reserved_key(kind: ObjKind, k: &String) -> (r: bool)
    ensures
        r == is_reserved(kind, k@),
{
    if key_is(k, "type") || key_is(k, "bbox") || key_is(k, "crs") {
        true
    } else {
        match kind {
            ObjKind::Geometry => key_is(k, "coordinates") || key_is(k, "geometries"),
            ObjKind::Feature => key_is(k, "geometry") || key_is(k, "properties") || key_is(
                k,
                "id",
            ),
            ObjKind::Collection => key_is(k, "features"),
        }
    }
}

/// The entries of `m` whose keys are not reserved for `kind`, in order.
pub open spec fn spec_nonreserved(m: Seq<EntryV>, kind: ObjKind) -> Seq<EntryV>
    decreases m.len(),
{
    if m.len() == 0 {
        Seq::empty()
    } else if is_reserved(kind, m[0].0) {
        spec_nonreserved(m.subrange(1, m.len() as int), kind)
    } else {
        seq![m[0]] + spec_nonreserved(m.subrange(1, m.len() as int), kind)
    }
}

/// The foreign members of `m`: its non-reserved entries, or `None` when
/// there are none.
pub open spec fn spec_foreign(m: Seq<EntryV>, kind: ObjKind) -> Option<Seq<EntryV>> {
    if spec_nonreserved(m, kind).len() == 0 {
        None
    } else {
        Some(spec_nonreserved(m, kind))
    }
}

// ---------------------------------------------------------------------
// Typed accessors over a JSON object map (§ field extraction).
// ---------------------------------------------------------------------
pub open spec fn spec_require(m: Seq<EntryV>, k: Seq<char>) -> Result<JsonV, ErrorV> {
    match sget(m, k) {
        Some(v) => Ok(v),
        None => Err(ErrorV::ExpectedProperty),
    }
}

pub open spec fn spec_as_string(v: JsonV) -> Result<Seq<char>, ErrorV> {
    match v {
        JsonV::Str(s) => Ok(s),
        _ => Err(ErrorV::ExpectedStringValue),
    }
}

pub open spec fn spec_as_array(v: JsonV) -> Result<Seq<JsonV>, ErrorV> {
    match v {
        JsonV::Arr(a) => Ok(a),
        _ => Err(ErrorV::ExpectedArrayValue),
    }
}

pub open spec fn spec_as_object(v: JsonV) -> Result<Seq<EntryV>, ErrorV> {
    match v {
        JsonV::Obj(m) => Ok(m),
        _ => Err(ErrorV::ExpectedObjectValue),
    }
}

/// The `type` discriminator of an object: required, and a string.
pub open spec fn spec_type_of(m: Seq<EntryV>) -> Result<Seq<char>, ErrorV> {
    match spec_require(m, "type"@) {
        Err(e) => Err(e),
        Ok(v) => spec_as_string(v),
    }
}

pub fn key_is(k: &String, lit: &str) -> (r: bool)
    ensures
        r == (k@ == lit@),
{
    *k == lit.to_owned()
}

/// Looks a key up in an object map; the first matching entry wins.
pub fn get_key<'a>(m: &'a JsonObject, k: &str) -> (r: Option<&'a Json>)
    ensures
        match r {
            Some(v) => sget(json_view_entries(m@), k@) == Some(v@),
            None => sget(json_view_entries(m@), k@) is None,
        },
{
    proof {
        assert(json_view_entries(m@).skip(0) =~= json_view_entries(m@));
    }
    get_key_from(m, k, 0)
}

fn get_key_from<'a>(m: &'a JsonObject, k: &str, i: usize) -> (r: Option<&'a Json>)
    requires
        i <= m@.len(),
    ensures
        match r {
            Some(v) => sget(json_view_entries(m@).skip(i as int), k@) == Some(v@),
            None => sget(json_view_entries(m@).skip(i as int), k@) is None,
        },
    decreases m@.len() - i,
{
    proof {
        lemma_view_entries_index(m@);
    }
    if i == m.len() {
        proof {
            assert(json_view_entries(m@).skip(i as int) =~= Seq::<EntryV>::empty());
        }
        None
    } else {
        let p = &m[i];
        proof {
            let vm = json_view_entries(m@);
            assert(vm.skip(i as int)[0] == vm[i as int]);
            assert(vm.skip(i as int).subrange(1, vm.skip(i as int).len() as int) =~= vm.skip(
                i as int + 1,
            ));
        }
        if key_is(&p.0, k) {
            Some(&p.1)
        } else {
            get_key_from(m, k, i + 1)
        }
    }
}

/// The value at `k`, or `ExpectedProperty` when the key is absent.
pub fn require<'a>(m: &'a JsonObject, k: &str) -> (r: Result<&'a Json, Error>)
    ensures
        match r {
            Ok(v) => spec_require(json_view_entries(m@), k@) == Ok::<JsonV, ErrorV>(v@),
            Err(e) => spec_require(json_view_entries(m@), k@) == Err::<JsonV, ErrorV>(e@),
        },
{
    match get_key(m, k) {
        Some(v) => Ok(v),
        None => Err(Error::ExpectedProperty),
    }
}

pub fn as_string<'a>(v: &'a Json) -> (r: Result<&'a String, Error>)
    ensures
        match r {
            Ok(s) => spec_as_string(v@) == Ok::<Seq<char>, ErrorV>(s@),
            Err(e) => spec_as_string(v@) == Err::<Seq<char>, ErrorV>(e@),
        },
{
    match v {
        Json::Str(s) => Ok(s),
        _ => Err(Error::ExpectedStringValue),
    }
}

pub fn as_array<'a>(v: &'a Json) -> (r: Result<&'a Vec<Json>, Error>)
    ensures
        match r {
            Ok(a) => spec_as_array(v@) == Ok::<Seq<JsonV>, ErrorV>(json_view_seq(a@)),
            Err(e) => spec_as_array(v@) == Err::<Seq<JsonV>, ErrorV>(e@),
        },
{
    match v {
        Json::Arr(a) => Ok(a),
        _ => Err(Error::ExpectedArrayValue),
    }
}

pub fn as_object<'a>(v: &'a Json) -> (r: Result<&'a JsonObject, Error>)
    ensures
        match r {
            Ok(m) => spec_as_object(v@) == Ok::<Seq<EntryV>, ErrorV>(json_view_entries(m@)),
            Err(e) => spec_as_object(v@) == Err::<Seq<EntryV>, ErrorV>(e@),
        },
{
    match v {
        Json::Obj(m) => Ok(m),
        _ => Err(Error::ExpectedObjectValue),
    }
}

/// The object's `type` discriminator string.
pub fn type_of<'a>(m: &'a JsonObject) -> (r: Result<&'a String, Error>)
    ensures
        match r {
            Ok(s) => spec_type_of(json_view_entries(m@)) == Ok::<Seq<char>, ErrorV>(s@),
            Err(e) => spec_type_of(json_view_entries(m@)) == Err::<Seq<char>, ErrorV>(e@),
        },
{
    match require(m, "type") {
        Err(e) => Err(e),
        Ok(v) => as_string(v),
    }
}

// ---------------------------------------------------------------------
// Round trips of coordinate arrays: what the builders write, the
// extractors read back unchanged.
// ---------------------------------------------------------------------
pub proof fn lemma_nums_rt(p: Seq<Seq<char>>, bad: ErrorV)
    ensures
        spec_as_nums(nums_to_json(p), bad) == Ok::<Seq<Seq<char>>, ErrorV>(p),
{
    let a = nums_to_json(p);
    assert forall|j: int| 0 <= j < a.len() implies (#[trigger] f_num(bad)(a[j])) is Ok by {
        assert(a[j] == JsonV::Num(p[j]));
    }
    lemma_try_map_all_ok(a, 0, f_num(bad));
    assert(Seq::new((a.len() - 0) as nat, |j: int| f_num(bad)(a[0 + j])->Ok_0) =~= p);
}

pub proof fn lemma_positions_rt(s: Seq<Seq<Seq<char>>>)
    ensures
        spec_positions(poss_to_json(s)) == Ok::<Seq<Seq<Seq<char>>>, ErrorV>(s),
{
    let a = poss_to_json(s);
    assert forall|j: int| 0 <= j < a.len() implies (#[trigger] f_position()(a[j])) is Ok
        && f_position()(a[j])->Ok_0 == s[j] by {
        assert(a[j] == JsonV::Arr(nums_to_json(s[j])));
        lemma_nums_rt(s[j], ErrorV::ExpectedF64Value);
    }
    lemma_try_map_all_ok(a, 0, f_position());
    assert(Seq::new((a.len() - 0) as nat, |j: int| f_position()(a[0 + j])->Ok_0) =~= s);
}

pub proof fn lemma_lines_rt(s: Seq<Seq<Seq<Seq<char>>>>)
    ensures
        spec_lines(lines_to_json(s)) == Ok::<Seq<Seq<Seq<Seq<char>>>>, ErrorV>(s),
{
    let a = lines_to_json(s);
    assert forall|j: int| 0 <= j < a.len() implies (#[trigger] f_pos_array()(a[j])) is Ok
        && f_pos_array()(a[j])->Ok_0 == s[j] by {
        assert(a[j] == JsonV::Arr(poss_to_json(s[j])));
        lemma_positions_rt(s[j]);
    }
    lemma_try_map_all_ok(a, 0, f_pos_array());
    assert(Seq::new((a.len() - 0) as nat, |j: int| f_pos_array()(a[0 + j])->Ok_0) =~= s);
}

pub proof fn lemma_polys_rt(s: Seq<Seq<Seq<Seq<Seq<char>>>>>)
    ensures
        spec_polygons(polys_to_json(s)) == Ok::<Seq<Seq<Seq<Seq<Seq<char>>>>>, ErrorV>(s),
{
    let a = polys_to_json(s);
    assert forall|j: int| 0 <= j < a.len() implies (#[trigger] f_lines_array()(a[j])) is Ok
        && f_lines_array()(a[j])->Ok_0 == s[j] by {
        assert(a[j] == JsonV::Arr(lines_to_json(s[j])));
        lemma_lines_rt(s[j]);
    }
    lemma_try_map_all_ok(a, 0, f_lines_array());
    assert(Seq::new((a.len() - 0) as nat, |j: int| f_lines_array()(a[0 + j])->Ok_0) =~= s);
}

/// One rejected element fails the whole conversion.
pub proof fn lemma_try_map_err<A, B>(a: Seq<A>, j: int, i: int, f: spec_fn(A) -> Result<B, ErrorV>)
    requires
        0 <= j <= i < a.len(),
        f(a[i]) is Err,
    ensures
        try_map(a, j, f) is Err,
    decreases i - j,
{
    if j < i && f(a[j]) is Ok {
        lemma_try_map_err(a, j + 1, i, f);
    }
}

/// Lookup in a one-entry map.
pub proof fn lemma_sget_single(e: EntryV, k: Seq<char>)
    ensures
        sget(seq![e], k) == (if e.0 == k {
            Some(e.1)
        } else {
            None::<JsonV>
        }),
{
    assert(seq![e].len() == 1 && seq![e][0] == e);
    assert(seq![e].subrange(1, 1) =~= Seq::<EntryV>::empty());
    assert(sget(Seq::<EntryV>::empty(), k) is None);
}

// ---------------------------------------------------------------------
// Lemmas on lookup and foreign members over concatenations; the
// round-trip laws below take a written object apart segment by segment.
// ---------------------------------------------------------------------
pub proof fn lemma_sget_concat(s1: Seq<EntryV>, s2: Seq<EntryV>, k: Seq<char>)
    ensures
        sget(s1 + s2, k) == (if sget(s1, k) is Some {
            sget(s1, k)
        } else {
            sget(s2, k)
        }),
    decreases s1.len(),
{
    if s1.len() == 0 {
        assert(s1 + s2 =~= s2);
    } else {
        lemma_sget_concat(s1.subrange(1, s1.len() as int), s2, k);
        assert((s1 + s2)[0] == s1[0]);
        assert((s1 + s2).subrange(1, (s1 + s2).len() as int) =~= s1.subrange(1, s1.len() as int)
            + s2);
    }
}

pub proof fn lemma_nonreserved_concat(s1: Seq<EntryV>, s2: Seq<EntryV>, kind: ObjKind)
    ensures
        spec_nonreserved(s1 + s2, kind) == spec_nonreserved(s1, kind) + spec_nonreserved(
            s2,
            kind,
        ),
    decreases s1.len(),
{
    if s1.len() == 0 {
        assert(s1 + s2 =~= s2);
        assert(spec_nonreserved(s1, kind) + spec_nonreserved(s2, kind) =~= spec_nonreserved(
            s2,
            kind,
        ));
    } else {
        lemma_nonreserved_concat(s1.subrange(1, s1.len() as int), s2, kind);
        assert((s1 + s2)[0] == s1[0]);
        assert((s1 + s2).subrange(1, (s1 + s2).len() as int) =~= s1.subrange(1, s1.len() as int)
            + s2);
        if !is_reserved(kind, s1[0].0) {
            assert(seq![s1[0]] + (spec_nonreserved(s1.subrange(1, s1.len() as int), kind)
                + spec_nonreserved(s2, kind)) =~= (seq![s1[0]] + spec_nonreserved(
                s1.subrange(1, s1.len() as int),
                kind,
            )) + spec_nonreserved(s2, kind));
        }
    }
}

/// Every key reserved: nothing is foreign.
pub proof fn lemma_nonreserved_empty(s: Seq<EntryV>, kind: ObjKind)
    requires
        forall|i: int| 0 <= i < s.len() ==> is_reserved(kind, (#[trigger] s[i]).0),
    ensures
        spec_nonreserved(s, kind) == Seq::<EntryV>::empty(),
    decreases s.len(),
{
    if s.len() > 0 {
        lemma_nonreserved_empty(s.subrange(1, s.len() as int), kind);
    }
}

/// No key reserved: everything is foreign, in order.
pub proof fn lemma_nonreserved_all(s: Seq<EntryV>, kind: ObjKind)
    requires
        forall|i: int| 0 <= i < s.len() ==> !is_reserved(kind, (#[trigger] s[i]).0),
    ensures
        spec_nonreserved(s, kind) == s,
    decreases s.len(),
{
    if s.len() > 0 {
        lemma_nonreserved_all(s.subrange(1, s.len() as int), kind);
        assert(seq![s[0]] + s.subrange(1, s.len() as int) =~= s);
    }
}

/// A key absent from a map never comes back from lookup.
pub proof fn lemma_sget_absent(s: Seq<EntryV>, k: Seq<char>)
    requires
        forall|i: int| 0 <= i < s.len() ==> (#[trigger] s[i]).0 != k,
    ensures
        sget(s, k) is None,
    decreases s.len(),
{
    if s.len() > 0 {
        lemma_sget_absent(s.subrange(1, s.len() as int), k);
    }
}

// ---------------------------------------------------------------------
// Executable coordinate extraction.
// ---------------------------------------------------------------------
/// Reads an array of numbers, rejecting any other element with `bad`.
pub fn to_nums(a: &Vec<Json>, bad: Error) -> (r: Result<Vec<Number>, Error>)
    ensures
        match r {
            Ok(p) => spec_as_nums(json_view_seq(a@), bad@) == Ok::<Seq<Seq<char>>, ErrorV>(
                nums_view(p@),
            ),
            Err(e) => spec_as_nums(json_view_seq(a@), bad@) == Err::<Seq<Seq<char>>, ErrorV>(e@),
        },
{
    let ghost va = json_view_seq(a@);
    let ghost f = f_num(bad@);
    proof {
        lemma_view_seq_index(a@);
    }
    let mut out: Vec<Number> = Vec::new();
    let mut i: usize = 0;
    while i < a.len()
        invariant
            i <= a@.len(),
            va == json_view_seq(a@),
            f == f_num(bad@),
            va.len() == a@.len(),
            forall|j: int| 0 <= j < va.len() ==> va[j] == json_view(#[trigger] a@[j]),
            match try_map(va, i as int, f) {
                Ok(rest) => try_map(va, 0, f) == Ok::<Seq<Seq<char>>, ErrorV>(
                    nums_view(out@) + rest,
                ),
                Err(e) => try_map(va, 0, f) == Err::<Seq<Seq<char>>, ErrorV>(e),
            },
        decreases a@.len() - i,
    {
        match &a[i] {
            Json::Num(s) => {
                let n = Number { text: s.clone() };
                proof {
                    assert(f(va[i as int]) == Ok::<Seq<char>, ErrorV>(s@));
                    assert(nums_view(out@.push(n)) =~= nums_view(out@).push(s@));
                    if try_map(va, i as int + 1, f) is Ok {
                        assert(nums_view(out@) + (seq![s@] + try_map(va, i as int + 1, f)->Ok_0)
                            =~= nums_view(out@).push(s@) + try_map(va, i as int + 1, f)->Ok_0);
                    }
                }
                out.push(n);
                i = i + 1;
            },
            _ => {
                proof {
                    assert(f(va[i as int]) == Err::<Seq<char>, ErrorV>(bad@));
                }
                return Err(bad);
            },
        }
    }
    proof {
        assert(try_map(va, i as int, f) == Ok::<Seq<Seq<char>>, ErrorV>(Seq::empty()));
        assert(nums_view(out@) + Seq::<Seq<char>>::empty() =~= nums_view(out@));
    }
    Ok(out)
}

/// A position: an array of numbers.
pub fn to_position(v: &Json) -> (r: Result<Vec<Number>, Error>)
    ensures
        match r {
            Ok(p) => spec_position(v@) == Ok::<Seq<Seq<char>>, ErrorV>(nums_view(p@)),
            Err(e) => spec_position(v@) == Err::<Seq<Seq<char>>, ErrorV>(e@),
        },
{
    match v {
        Json::Arr(a) => to_nums(a, Error::ExpectedF64Value),
        _ => Err(Error::ExpectedArrayValue),
    }
}

/// An array of positions.
pub fn to_positions(a: &Vec<Json>) -> (r: Result<Vec<Vec<Number>>, Error>)
    ensures
        match r {
            Ok(p) => spec_positions(json_view_seq(a@)) == Ok::<Seq<Seq<Seq<char>>>, ErrorV>(
                poss_view(p@),
            ),
            Err(e) => spec_positions(json_view_seq(a@)) == Err::<Seq<Seq<Seq<char>>>, ErrorV>(e@),
        },
{
    let ghost va = json_view_seq(a@);
    let ghost f = f_position();
    proof {
        lemma_view_seq_index(a@);
    }
    let mut out: Vec<Vec<Number>> = Vec::new();
    let mut i: usize = 0;
    while i < a.len()
        invariant
            i <= a@.len(),
            va == json_view_seq(a@),
            f == f_position(),
            va.len() == a@.len(),
            forall|j: int| 0 <= j < va.len() ==> va[j] == json_view(#[trigger] a@[j]),
            match try_map(va, i as int, f) {
                Ok(rest) => try_map(va, 0, f) == Ok::<Seq<Seq<Seq<char>>>, ErrorV>(
                    poss_view(out@) + rest,
                ),
                Err(e) => try_map(va, 0, f) == Err::<Seq<Seq<Seq<char>>>, ErrorV>(e),
            },
        decreases a@.len() - i,
    {
        match to_position(&a[i]) {
            Ok(p) => {
                proof {
                    assert(f(va[i as int]) == Ok::<Seq<Seq<char>>, ErrorV>(nums_view(p@)));
                    assert(poss_view(out@.push(p)) =~= poss_view(out@).push(nums_view(p@)));
                    if try_map(va, i as int + 1, f) is Ok {
                        assert(poss_view(out@) + (seq![nums_view(p@)] + try_map(
                            va,
                            i as int + 1,
                            f,
                        )->Ok_0) =~= poss_view(out@).push(nums_view(p@)) + try_map(
                            va,
                            i as int + 1,
                            f,
                        )->Ok_0);
                    }
                }
                out.push(p);
                i = i + 1;
            },
            Err(e) => {
                proof {
                    assert(f(va[i as int]) == Err::<Seq<Seq<char>>, ErrorV>(e@));
                }
                return Err(e);
            },
        }
    }
    proof {
        assert(try_map(va, i as int, f) == Ok::<Seq<Seq<Seq<char>>>, ErrorV>(Seq::empty()));
        assert(poss_view(out@) + Seq::<Seq<Seq<char>>>::empty() =~= poss_view(out@));
    }
    Ok(out)
}

/// An array of positions, as a JSON value.
pub fn to_pos_array(v: &Json) -> (r: Result<Vec<Vec<Number>>, Error>)
    ensures
        match r {
            Ok(p) => spec_pos_array(v@) == Ok::<Seq<Seq<Seq<char>>>, ErrorV>(poss_view(p@)),
            Err(e) => spec_pos_array(v@) == Err::<Seq<Seq<Seq<char>>>, ErrorV>(e@),
        },
{
    match v {
        Json::Arr(a) => to_positions(a),
        _ => Err(Error::ExpectedArrayValue),
    }
}

/// An array of position arrays.
pub fn to_lines(a: &Vec<Json>) -> (r: Result<Vec<Vec<Vec<Number>>>, Error>)
    ensures
        match r {
            Ok(p) => spec_lines(json_view_seq(a@)) == Ok::<Seq<Seq<Seq<Seq<char>>>>, ErrorV>(
                lines_view(p@),
            ),
            Err(e) => spec_lines(json_view_seq(a@)) == Err::<Seq<Seq<Seq<Seq<char>>>>, ErrorV>(
                e@,
            ),
        },
{
    let ghost va = json_view_seq(a@);
    let ghost f = f_pos_array();
    proof {
        lemma_view_seq_index(a@);
    }
    let mut out: Vec<Vec<Vec<Number>>> = Vec::new();
    let mut i: usize = 0;
    while i < a.len()
        invariant
            i <= a@.len(),
            va == json_view_seq(a@),
            f == f_pos_array(),
            va.len() == a@.len(),
            forall|j: int| 0 <= j < va.len() ==> va[j] == json_view(#[trigger] a@[j]),
            match try_map(va, i as int, f) {
                Ok(rest) => try_map(va, 0, f) == Ok::<Seq<Seq<Seq<Seq<char>>>>, ErrorV>(
                    lines_view(out@) + rest,
                ),
                Err(e) => try_map(va, 0, f) == Err::<Seq<Seq<Seq<Seq<char>>>>, ErrorV>(e),
            },
        decreases a@.len() - i,
    {
        match to_pos_array(&a[i]) {
            Ok(p) => {
                proof {
                    assert(f(va[i as int]) == Ok::<Seq<Seq<Seq<char>>>, ErrorV>(poss_view(p@)));
                    assert(lines_view(out@.push(p)) =~= lines_view(out@).push(poss_view(p@)));
                    if try_map(va, i as int + 1, f) is Ok {
                        assert(lines_view(out@) + (seq![poss_view(p@)] + try_map(
                            va,
                            i as int + 1,
                            f,
                        )->Ok_0) =~= lines_view(out@).push(poss_view(p@)) + try_map(
                            va,
                            i as int + 1,
                            f,
                        )->Ok_0);
                    }
                }
                out.push(p);
                i = i + 1;
            },
            Err(e) => {
                proof {
                    assert(f(va[i as int]) == Err::<Seq<Seq<Seq<char>>>, ErrorV>(e@));
                }
                return Err(e);
            },
        }
    }
    proof {
        assert(try_map(va, i as int, f) == Ok::<Seq<Seq<Seq<Seq<char>>>>, ErrorV>(Seq::empty()));
        assert(lines_view(out@) + Seq::<Seq<Seq<Seq<char>>>>::empty() =~= lines_view(out@));
    }
    Ok(out)
}

/// An array of position arrays, as a JSON value.
pub fn to_lines_array(v: &Json) -> (r: Result<Vec<Vec<Vec<Number>>>, Error>)
    ensures
        match r {
            Ok(p) => spec_lines_array(v@) == Ok::<Seq<Seq<Seq<Seq<char>>>>, ErrorV>(
                lines_view(p@),
            ),
            Err(e) => spec_lines_array(v@) == Err::<Seq<Seq<Seq<Seq<char>>>>, ErrorV>(e@),
        },
{
    match v {
        Json::Arr(a) => to_lines(a),
        _ => Err(Error::ExpectedArrayValue),
    }
}

/// An array of polygons, as a JSON value.
pub fn to_polys_array(v: &Json) -> (r: Result<Vec<Vec<Vec<Vec<Number>>>>, Error>)
    ensures
        match r {
            Ok(p) => spec_polys_array(v@) == Ok::<Seq<Seq<Seq<Seq<Seq<char>>>>>, ErrorV>(
                polys_view(p@),
            ),
            Err(e) => spec_polys_array(v@) == Err::<Seq<Seq<Seq<Seq<Seq<char>>>>>, ErrorV>(e@),
        },
{
    match v {
        Json::Arr(a) => to_polygons(a),
        _ => Err(Error::ExpectedArrayValue),
    }
}

/// An array of polygons.
pub fn to_polygons(a: &Vec<Json>) -> (r: Result<Vec<Vec<Vec<Vec<Number>>>>, Error>)
    ensures
        match r {
            Ok(p) => spec_polygons(json_view_seq(a@)) == Ok::<
                Seq<Seq<Seq<Seq<Seq<char>>>>>,
                ErrorV,
            >(polys_view(p@)),
            Err(e) => spec_polygons(json_view_seq(a@)) == Err::<
                Seq<Seq<Seq<Seq<Seq<char>>>>>,
                ErrorV,
            >(e@),
        },
{
    let ghost va = json_view_seq(a@);
    let ghost f = f_lines_array();
    proof {
        lemma_view_seq_index(a@);
    }
    let mut out: Vec<Vec<Vec<Vec<Number>>>> = Vec::new();
    let mut i: usize = 0;
    while i < a.len()
        invariant
            i <= a@.len(),
            va == json_view_seq(a@),
            f == f_lines_array(),
            va.len() == a@.len(),
            forall|j: int| 0 <= j < va.len() ==> va[j] == json_view(#[trigger] a@[j]),
            match try_map(va, i as int, f) {
                Ok(rest) => try_map(va, 0, f) == Ok::<Seq<Seq<Seq<Seq<Seq<char>>>>>, ErrorV>(
                    polys_view(out@) + rest,
                ),
                Err(e) => try_map(va, 0, f) == Err::<Seq<Seq<Seq<Seq<Seq<char>>>>>, ErrorV>(e),
            },
        decreases a@.len() - i,
    {
        match to_lines_array(&a[i]) {
            Ok(p) => {
                proof {
                    assert(f(va[i as int]) == Ok::<Seq<Seq<Seq<Seq<char>>>>, ErrorV>(
                        lines_view(p@),
                    ));
                    assert(polys_view(out@.push(p)) =~= polys_view(out@).push(lines_view(p@)));
                    if try_map(va, i as int + 1, f) is Ok {
                        assert(polys_view(out@) + (seq![lines_view(p@)] + try_map(
                            va,
                            i as int + 1,
                            f,
                        )->Ok_0) =~= polys_view(out@).push(lines_view(p@)) + try_map(
                            va,
                            i as int + 1,
                            f,
                        )->Ok_0);
                    }
                }
                out.push(p);
                i = i + 1;
            },
            Err(e) => {
                proof {
                    assert(f(va[i as int]) == Err::<Seq<Seq<Seq<Seq<char>>>>, ErrorV>(e@));
                }
                return Err(e);
            },
        }
    }
    proof {
        assert(try_map(va, i as int, f) == Ok::<Seq<Seq<Seq<Seq<Seq<char>>>>>, ErrorV>(
            Seq::empty(),
        ));
        assert(polys_view(out@) + Seq::<Seq<Seq<Seq<Seq<char>>>>>::empty() =~= polys_view(out@));
    }
    Ok(out)
}

// ---------------------------------------------------------------------
// Executable builders for coordinate arrays.
// ---------------------------------------------------------------------
pub fn position_json(p: &Vec<Number>) -> (r: Json)
    ensures
        r@ == JsonV::Arr(nums_to_json(nums_view(p@))),
{
    let mut out: Vec<Json> = Vec::new();
    let mut i: usize = 0;
    while i < p.len()
        invariant
            i <= p@.len(),
            json_view_seq(out@) == nums_to_json(nums_view(p@.take(i as int))),
        decreases p@.len() - i,
    {
        let x = Json::Num(p[i].text.clone());
        proof {
            lemma_view_seq_push(out@, x);
            assert(nums_to_json(nums_view(p@.take(i as int))).push(JsonV::Num(p@[i as int]@))
                =~= nums_to_json(nums_view(p@.take(i as int + 1))));
        }
        out.push(x);
        i = i + 1;
    }
    proof {
        assert(p@.take(p@.len() as int) =~= p@);
    }
    Json::Arr(out)
}

pub fn positions_json(s: &Vec<Vec<Number>>) -> (r: Json)
    ensures
        r@ == JsonV::Arr(poss_to_json(poss_view(s@))),
{
    let mut out: Vec<Json> = Vec::new();
    let mut i: usize = 0;
    while i < s.len()
        invariant
            i <= s@.len(),
            json_view_seq(out@) == poss_to_json(poss_view(s@.take(i as int))),
        decreases s@.len() - i,
    {
        let x = position_json(&s[i]);
        proof {
            lemma_view_seq_push(out@, x);
            assert(poss_to_json(poss_view(s@.take(i as int))).push(
                JsonV::Arr(nums_to_json(nums_view(s@[i as int]@))),
            ) =~= poss_to_json(poss_view(s@.take(i as int + 1))));
        }
        out.push(x);
        i = i + 1;
    }
    proof {
        assert(s@.take(s@.len() as int) =~= s@);
    }
    Json::Arr(out)
}

pub fn lines_json(s: &Vec<Vec<Vec<Number>>>) -> (r: Json)
    ensures
        r@ == JsonV::Arr(lines_to_json(lines_view(s@))),
{
    let mut out: Vec<Json> = Vec::new();
    let mut i: usize = 0;
    while i < s.len()
        invariant
            i <= s@.len(),
            json_view_seq(out@) == lines_to_json(lines_view(s@.take(i as int))),
        decreases s@.len() - i,
    {
        let x = positions_json(&s[i]);
        proof {
            lemma_view_seq_push(out@, x);
            assert(lines_to_json(lines_view(s@.take(i as int))).push(
                JsonV::Arr(poss_to_json(poss_view(s@[i as int]@))),
            ) =~= lines_to_json(lines_view(s@.take(i as int + 1))));
        }
        out.push(x);
        i = i + 1;
    }
    proof {
        assert(s@.take(s@.len() as int) =~= s@);
    }
    Json::Arr(out)
}

pub fn polys_json(s: &Vec<Vec<Vec<Vec<Number>>>>) -> (r: Json)
    ensures
        r@ == JsonV::Arr(polys_to_json(polys_view(s@))),
{
    let mut out: Vec<Json> = Vec::new();
    let mut i: usize = 0;
    while i < s.len()
        invariant
            i <= s@.len(),
            json_view_seq(out@) == polys_to_json(polys_view(s@.take(i as int))),
        decreases s@.len() - i,
    {
        let x = lines_json(&s[i]);
        proof {
            lemma_view_seq_push(out@, x);
            assert(polys_to_json(polys_view(s@.take(i as int))).push(
                JsonV::Arr(lines_to_json(lines_view(s@[i as int]@))),
            ) =~= polys_to_json(polys_view(s@.take(i as int + 1))));
        }
        out.push(x);
        i = i + 1;
    }
    proof {
        assert(s@.take(s@.len() as int) =~= s@);
    }
    Json::Arr(out)
}

// ---------------------------------------------------------------------
// Optional bounding box.
// ---------------------------------------------------------------------
pub open spec fn spec_get_bbox(m: Seq<EntryV>) -> Result<Option<Seq<Seq<char>>>, ErrorV> {
    match sget(m, "bbox"@) {
        None => Ok(None),
        Some(v) => match v {
            JsonV::Arr(a) => match spec_as_nums(a, ErrorV::BboxExpectedNumericValues) {
                Ok(p) => Ok(Some(p)),
                Err(e) => Err(e),
            },
            _ => Err(ErrorV::BboxExpectedArray),
        },
    }
}

pub fn get_bbox(m: &JsonObject) -> (r: Result<Option<Vec<Number>>, Error>)
    ensures
        match r {
            Ok(Some(p)) => spec_get_bbox(json_view_entries(m@)) == Ok::<
                Option<Seq<Seq<char>>>,
                ErrorV,
            >(Some(nums_view(p@))),
            Ok(None) => spec_get_bbox(json_view_entries(m@)) == Ok::<
                Option<Seq<Seq<char>>>,
                ErrorV,
            >(None),
            Err(e) => spec_get_bbox(json_view_entries(m@)) == Err::<
                Option<Seq<Seq<char>>>,
                ErrorV,
            >(e@),
        },
{
    match get_key(m, "bbox") {
        None => Ok(None),
        Some(v) => match v {
            Json::Arr(a) => match to_nums(a, Error::BboxExpectedNumericValues) {
                Ok(p) => Ok(Some(p)),
                Err(e) => Err(e),
            },
            _ => Err(Error::BboxExpectedArray),
        },
    }
}

// ---------------------------------------------------------------------
// Foreign member collection.
// ---------------------------------------------------------------------
pub fn collect_foreign(m: &JsonObject, kind: ObjKind) -> (r: Option<JsonObject>)
    ensures
        match r {
            Some(f) => spec_foreign(json_view_entries(m@), kind) == Some(json_view_entries(f@)),
            None => spec_foreign(json_view_entries(m@), kind) is None,
        },
{
    let ghost vm = json_view_entries(m@);
    proof {
        lemma_view_entries_index(m@);
        assert(vm.skip(0) =~= vm);
    }
    let mut out: Vec<(String, Json)> = Vec::new();
    let mut i: usize = 0;
    while i < m.len()
        invariant
            i <= m@.len(),
            vm == json_view_entries(m@),
            vm.len() == m@.len(),
            forall|j: int|
                0 <= j < vm.len() ==> vm[j] == ((#[trigger] m@[j]).0@, json_view(m@[j].1)),
            spec_nonreserved(vm, kind) == json_view_entries(out@) + spec_nonreserved(
                vm.skip(i as int),
                kind,
            ),
        decreases m@.len() - i,
    {
        let p = &m[i];
        proof {
            assert(vm.skip(i as int)[0] == vm[i as int]);
            assert(vm.skip(i as int).subrange(1, vm.skip(i as int).len() as int) =~= vm.skip(
                i as int + 1,
            ));
        }
        if reserved_key(kind, &p.0) {
            i = i + 1;
        } else {
            let c = (p.0.clone(), clone_json(&p.1));
            proof {
                lemma_view_entries_push(out@, c);
                assert(json_view_entries(out@) + (seq![vm[i as int]] + spec_nonreserved(
                    vm.skip(i as int + 1),
                    kind,
                )) =~= json_view_entries(out@).push(vm[i as int]) + spec_nonreserved(
                    vm.skip(i as int + 1),
                    kind,
                ));
            }
            out.push(c);
            i = i + 1;
        }
    }
    proof {
        assert(vm.skip(i as int) =~= Seq::<EntryV>::empty());
        assert(json_view_entries(out@) + Seq::<EntryV>::empty() =~= json_view_entries(out@));
        lemma_view_entries_index(out@);
    }
    if out.len() == 0 {
        None
    } else {
        Some(out)
    }
}

// ---------------------------------------------------------------------
// Deep copies (the contracts relate the views).
// ---------------------------------------------------------------------
pub fn clone_json(j: &Json) -> (r: Json)
    ensures
        r@ == j@,
    decreases *j,
{
    match j {
        Json::Null => Json::Null,
        Json::Bool(b) => Json::Bool(*b),
        Json::Num(s) => Json::Num(s.clone()),
        Json::Str(s) => Json::Str(s.clone()),
        Json::Arr(a) => {
            proof {
                assert(decreases_to!(*j => (*j)->Arr_0));
            }
            Json::Arr(clone_json_vec(a))
        },
        Json::Obj(m) => {
            proof {
                assert(decreases_to!(*j => (*j)->Obj_0));
            }
            Json::Obj(clone_object(m))
        },
    }
}

pub fn clone_json_vec(a: &Vec<Json>) -> (r: Vec<Json>)
    ensures
        json_view_seq(r@) == json_view_seq(a@),
    decreases *a,
{
    let mut out: Vec<Json> = Vec::new();
    let mut i: usize = 0;
    while i < a.len()
        invariant
            i <= a@.len(),
            json_view_seq(out@) == json_view_seq(a@.take(i as int)),
        decreases a@.len() - i,
    {
        proof {
            assert(decreases_to!(*a => a@));
            assert(decreases_to!(a@ => a@[i as int]));
        }
        let c = clone_json(&a[i]);
        proof {
            lemma_view_seq_push(out@, c);
            lemma_view_seq_push(a@.take(i as int), a@[i as int]);
            assert(a@.take(i as int).push(a@[i as int]) =~= a@.take(i as int + 1));
        }
        out.push(c);
        i = i + 1;
    }
    proof {
        assert(a@.take(a@.len() as int) =~= a@);
    }
    out
}

pub fn clone_object(m: &JsonObject) -> (r: JsonObject)
    ensures
        json_view_entries(r@) == json_view_entries(m@),
    decreases *m,
{
    let mut out: Vec<(String, Json)> = Vec::new();
    let mut i: usize = 0;
    while i < m.len()
        invariant
            i <= m@.len(),
            json_view_entries(out@) == json_view_entries(m@.take(i as int)),
        decreases m@.len() - i,
    {
        proof {
            assert(decreases_to!(*m => m@));
            assert(decreases_to!(m@ => m@[i as int]));
            assert(decreases_to!(m@[i as int] => m@[i as int].1));
        }
        let p = &m[i];
        let c = (p.0.clone(), clone_json(&p.1));
        proof {
            lemma_view_entries_push(out@, c);
            lemma_view_entries_push(m@.take(i as int), m@[i as int]);
            assert(m@.take(i as int).push(m@[i as int]) =~= m@.take(i as int + 1));
        }
        out.push(c);
        i = i + 1;
    }
    proof {
        assert(m@.take(m@.len() as int) =~= m@);
    }
    out
}

} // verus!
