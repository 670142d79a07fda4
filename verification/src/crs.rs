use vstd::prelude::*;

use crate::json::{json_view_entries, lemma_view_entries_index, sget, EntryV, Json, JsonObject,
    JsonV};
use crate::util::{as_object, as_string, get_key, key_is, require, spec_as_object, spec_as_string,
    spec_require, spec_type_of, type_of};
use crate::{Error, ErrorV};

verus! {

/// Coordinate Reference System object: named by identifier, or linked
/// by URI with an optional link type.
#[derive(Clone, Debug, PartialEq)]
pub enum Crs {
    Named { name: String },
    Linked { href: String, type_: Option<String> },
}

/// Mathematical model of a `Crs` value.
pub enum CrsV {
    Named { name: Seq<char> },
    Linked { href: Seq<char>, type_: Option<Seq<char>> },
}

impl View for Crs {
    type V = CrsV;

    open spec fn view(&self) -> CrsV {
        match self {
            Crs::Named { name } => CrsV::Named { name: name@ },
            Crs::Linked { href, type_ } => CrsV::Linked {
                href: href@,
                type_: match type_ {
                    Some(t) => Some(t@),
                    None => None,
                },
            },
        }
    }
}

/// Reading a CRS object: its `type` string selects the variant; `"name"`
/// requires `properties.name`, `"link"` requires `properties.href` and
/// reads an optional `properties.type`; any other `type` is rejected
/// with that string as payload.
pub open spec fn spec_crs_from_object(m: Seq<EntryV>) -> Result<CrsV, ErrorV> {
    match spec_type_of(m) {
        Err(e) => Err(e),
        Ok(t) => match spec_require(m, "properties"@) {
            Err(e) => Err(e),
            Ok(pv) => match spec_as_object(pv) {
                Err(e) => Err(e),
                Ok(props) => if t == "name"@ {
                    match spec_require(props, "name"@) {
                        Err(e) => Err(e),
                        Ok(nv) => match spec_as_string(nv) {
                            Err(e) => Err(e),
                            Ok(n) => Ok(CrsV::Named { name: n }),
                        },
                    }
                } else if t == "link"@ {
                    match spec_require(props, "href"@) {
                        Err(e) => Err(e),
                        Ok(hv) => match spec_as_string(hv) {
                            Err(e) => Err(e),
                            Ok(h) => match sget(props, "type"@) {
                                None => Ok(CrsV::Linked { href: h, type_: None }),
                                Some(tv) => match spec_as_string(tv) {
                                    Err(e) => Err(e),
                                    Ok(ts) => Ok(CrsV::Linked { href: h, type_: Some(ts) }),
                                },
                            },
                        },
                    }
                } else {
                    Err(ErrorV::CrsUnknownType(t))
                },
            },
        },
    }
}

/// Writing a CRS object: `{type, properties:{...}}` with the key set of
/// the variant.
pub open spec fn spec_crs_to_object(c: CrsV) -> Seq<EntryV> {
    match c {
        CrsV::Named { name } => seq![
            ("type"@, JsonV::Str("name"@)),
            ("properties"@, JsonV::Obj(seq![("name"@, JsonV::Str(name))])),
        ],
        CrsV::Linked { href, type_ } => seq![
            ("type"@, JsonV::Str("link"@)),
            (
                "properties"@,
                JsonV::Obj(
                    match type_ {
                        None => seq![("href"@, JsonV::Str(href))],
                        Some(t) => seq![("href"@, JsonV::Str(href)), ("type"@, JsonV::Str(t))],
                    },
                ),
            ),
        ],
    }
}

/// An optional `crs` member: absent, or an object read as a CRS.
pub open spec fn spec_get_crs(m: Seq<EntryV>) -> Result<Option<CrsV>, ErrorV> {
    match sget(m, "crs"@) {
        None => Ok(None),
        Some(v) => match v {
            JsonV::Obj(cm) => match spec_crs_from_object(cm) {
                Ok(c) => Ok(Some(c)),
                Err(e) => Err(e),
            },
            _ => Err(ErrorV::CrsExpectedObject),
        },
    }
}

impl Crs {
    /// Reads a CRS from a JSON object, as `spec_crs_from_object` says.
    pub fn from_object(object: &JsonObject) -> (r: Result<Crs, Error>)
        ensures
            match r {
                Ok(c) => spec_crs_from_object(json_view_entries(object@)) == Ok::<CrsV, ErrorV>(
                    c@,
                ),
                Err(e) => spec_crs_from_object(json_view_entries(object@)) == Err::<CrsV, ErrorV>(
                    e@,
                ),
            },
    {
        let t = match type_of(object) {
            Ok(t) => t,
            Err(e) => return Err(e),
        };
        let pv = match require(object, "properties") {
            Ok(v) => v,
            Err(e) => return Err(e),
        };
        let props = match as_object(pv) {
            Ok(p) => p,
            Err(e) => return Err(e),
        };
        if key_is(t, "name") {
            let nv = match require(props, "name") {
                Ok(v) => v,
                Err(e) => return Err(e),
            };
            match as_string(nv) {
                Ok(n) => Ok(Crs::Named { name: n.clone() }),
                Err(e) => Err(e),
            }
        } else if key_is(t, "link") {
            let hv = match require(props, "href") {
                Ok(v) => v,
                Err(e) => return Err(e),
            };
            let h = match as_string(hv) {
                Ok(h) => h,
                Err(e) => return Err(e),
            };
            match get_key(props, "type") {
                None => Ok(Crs::Linked { href: h.clone(), type_: None }),
                Some(tv) => match as_string(tv) {
                    Ok(ts) => Ok(Crs::Linked { href: h.clone(), type_: Some(ts.clone()) }),
                    Err(e) => Err(e),
                },
            }
        } else {
            Err(Error::CrsUnknownType(t.clone()))
        }
    }

    /// Writes the CRS back as a JSON object, as `spec_crs_to_object` says.
    pub fn to_object(&self) -> (r: JsonObject)
        ensures
            json_view_entries(r@) == spec_crs_to_object(self@),
    {
        match self {
            Crs::Named { name } => {
                let mut out: Vec<(String, Json)> = Vec::new();
                let mut props: Vec<(String, Json)> = Vec::new();
                props.push(("name".to_owned(), Json::Str(name.clone())));
                proof {
                    lemma_view_entries_index(props@);
                    assert(json_view_entries(props@) =~= seq![("name"@, JsonV::Str(name@))]);
                }
                out.push(("type".to_owned(), Json::Str("name".to_owned())));
                out.push(("properties".to_owned(), Json::Obj(props)));
                proof {
                    lemma_view_entries_index(out@);
                    assert(json_view_entries(out@) =~= spec_crs_to_object(self@));
                }
                out
            },
            Crs::Linked { href, type_ } => {
                let mut out: Vec<(String, Json)> = Vec::new();
                let mut props: Vec<(String, Json)> = Vec::new();
                props.push(("href".to_owned(), Json::Str(href.clone())));
                match type_ {
                    Some(ts) => {
                        props.push(("type".to_owned(), Json::Str(ts.clone())));
                        proof {
                            lemma_view_entries_index(props@);
                            assert(json_view_entries(props@) =~= seq![
                                ("href"@, JsonV::Str(href@)),
                                ("type"@, JsonV::Str(ts@)),
                            ]);
                        }
                    },
                    None => {
                        proof {
                            lemma_view_entries_index(props@);
                            assert(json_view_entries(props@) =~= seq![
                                ("href"@, JsonV::Str(href@)),
                            ]);
                        }
                    },
                }
                out.push(("type".to_owned(), Json::Str("link".to_owned())));
                out.push(("properties".to_owned(), Json::Obj(props)));
                proof {
                    lemma_view_entries_index(out@);
                    assert(json_view_entries(out@) =~= spec_crs_to_object(self@));
                }
                out
            },
        }
    }
}

/// Reads the optional `crs` member of a wrapper object.
pub fn get_crs(m: &JsonObject) -> (r: Result<Option<Crs>, Error>)
    ensures
        match r {
            Ok(Some(c)) => spec_get_crs(json_view_entries(m@)) == Ok::<Option<CrsV>, ErrorV>(
                Some(c@),
            ),
            Ok(None) => spec_get_crs(json_view_entries(m@)) == Ok::<Option<CrsV>, ErrorV>(None),
            Err(e) => spec_get_crs(json_view_entries(m@)) == Err::<Option<CrsV>, ErrorV>(e@),
        },
{
    match get_key(m, "crs") {
        None => Ok(None),
        Some(v) => match v {
            Json::Obj(cm) => match Crs::from_object(cm) {
                Ok(c) => Ok(Some(c)),
                Err(e) => Err(e),
            },
            _ => Err(Error::CrsExpectedObject),
        },
    }
}

/// Law: a CRS written with `spec_crs_to_object` reads back unchanged.
pub proof fn lemma_crs_round_trip(c: CrsV)
    ensures
        spec_crs_from_object(spec_crs_to_object(c)) == Ok::<CrsV, ErrorV>(c),
{
    reveal_strlit("type");
    reveal_strlit("properties");
    reveal_strlit("name");
    reveal_strlit("link");
    reveal_strlit("href");
    reveal_with_fuel(sget, 4);
    assert("type"@.len() == 4 && "properties"@.len() == 10 && "name"@.len() == 4 && "link"@.len()
        == 4 && "href"@.len() == 4);
    assert("type"@ != "properties"@);
    assert("type"@[0] == 't' && "name"@[0] == 'n' && "link"@[0] == 'l' && "href"@[0] == 'h');
    let m = spec_crs_to_object(c);
    assert(m.len() == 2 && m[0].0 == "type"@ && m[1].0 == "properties"@);
    assert(m.subrange(1, 2) =~= seq![m[1]]);
    assert(seq![m[1]].subrange(1, 1) =~= Seq::<EntryV>::empty());
    assert(sget(m, "properties"@) == Some(m[1].1));
    match c {
        CrsV::Named { name } => {
            assert(spec_type_of(m) == Ok::<Seq<char>, ErrorV>("name"@));
        },
        CrsV::Linked { href, type_ } => {
            assert(spec_type_of(m) == Ok::<Seq<char>, ErrorV>("link"@));
            assert("link"@ != "name"@) by {
                assert("link"@[0] == 'l' && "name"@[0] == 'n');
            }
            let props = m[1].1->Obj_0;
            match type_ {
                None => {},
                Some(t) => {
                    assert(props.len() == 2 && props[0].0 == "href"@ && props[1].0 == "type"@);
                    assert(props.subrange(1, 2) =~= seq![props[1]]);
                    assert(seq![props[1]].subrange(1, 1) =~= Seq::<EntryV>::empty());
                    assert("href"@ != "type"@);
                    assert(sget(props, "type"@) == Some(props[1].1));
                },
            }
        },
    }
}

} // verus!
