//! A declarative XML mapping engine: typed values are read from and
//! written to XML documents under an explicit per-field schema, with
//! case-folded name lookup, defaults, namespaces, untagged children and
//! an unknown-field policy.
use vstd::prelude::*;

pub mod chars;
pub mod num;
pub mod case;
pub mod events;
pub mod tokenizer;
pub mod value;
pub mod schema;
pub mod ser;
pub mod de;
pub mod laws;
pub mod xmlvalue;

use crate::case::{convert_spec, Case};
use crate::chars::{chars_to_string, ci_eq, str_chars};
use crate::de::{deserialize, err_view, spec_de, ErrV, XmlError};
use crate::events::{evs_view, write_events, EventV, XmlEvent};
use crate::schema::{names_view, spec_root_names, Container};
use crate::ser::{serialize, spec_ser};
use crate::tokenizer::{spec_tokenize, tokenize};
use crate::value::{value_view, Value, ValueV};

verus! {

/// The serialized document of a value: its events under the first
/// declared root, written out.
pub open spec fn spec_serialize_doc(c: Container, v: Value) -> Seq<char> {
    write_events(spec_ser(c, v, spec_root_names(c)[0]))
}

/// Serialize a value under its schema's first root tag.
pub fn xml_serialize(c: &Container, obj: &Value) -> (r: String)
    requires
        c.roots@.len() > 0,
    ensures
        r@ == spec_serialize_doc(*c, *obj),
{
    let roots = c.get_root_names();
    let mut out: Vec<XmlEvent> = Vec::new();
    serialize(c, obj, &roots[0], &mut out);
    let mut text: Vec<char> = Vec::new();
    crate::events::push_events(&mut text, &out);
    chars_to_string(&text)
}

/// Serialize a value with the document declaration in front.
pub fn xml_serialize_with_decl(c: &Container, obj: &Value) -> (r: String)
    requires
        c.roots@.len() > 0,
    ensures
        r@ == "<?xml version=\"1.0\" encoding=\"UTF-8\" standalone=\"yes\"?>"@
            + spec_serialize_doc(*c, *obj),
{
    let roots = c.get_root_names();
    let mut out: Vec<XmlEvent> = Vec::new();
    serialize(c, obj, &roots[0], &mut out);
    let mut text: Vec<char> = str_chars(
        "<?xml version=\"1.0\" encoding=\"UTF-8\" standalone=\"yes\"?>",
    );
    crate::events::push_events(&mut text, &out);
    chars_to_string(&text)
}

/// The rename policy used for root matching.
pub open spec fn rename_case(c: Container) -> Case {
    match c.rename_all {
        Some(case) => case,
        None => Case::Identity,
    }
}

/// The first event that opens an element whose policy-transformed name
/// matches the given root form, case-insensitively.
pub open spec fn spec_root_find(c: Container, r: Seq<char>, events: Seq<EventV>, i: int) -> Option<
    int,
>
    decreases events.len() - i,
{
    if i < 0 || i >= events.len() {
        None
    } else {
        match events[i] {
            EventV::Start { name, attrs } => if ci_eq(convert_spec(rename_case(c), name), r) {
                Some(i)
            } else {
                spec_root_find(c, r, events, i + 1)
            },
            EventV::Empty { name, attrs } => if ci_eq(convert_spec(rename_case(c), name), r) {
                Some(i)
            } else {
                spec_root_find(c, r, events, i + 1)
            },
            _ => spec_root_find(c, r, events, i + 1),
        }
    }
}

/// Try the declared roots in order: the first success wins; when every
/// root fails, the first failure is surfaced.
pub open spec fn spec_try_roots(c: Container, events: Seq<EventV>, k: int) -> Result<ValueV, ErrV>
    decreases spec_root_names(c).len() - k,
{
    if k < 0 || k >= spec_root_names(c).len() {
        Err(ErrV::UnexpectedRoot)
    } else {
        let r = spec_root_names(c)[k];
        let attempt: Result<ValueV, ErrV> = match spec_root_find(c, r, events, 0) {
            Some(i) => {
                match events[i] {
                    EventV::Start { name, attrs } => match spec_de(
                        c,
                        r,
                        attrs,
                        events,
                        i + 1,
                        false,
                    ) {
                        Ok((v, _)) => Ok(v),
                        Err(e) => Err(e),
                    },
                    EventV::Empty { name, attrs } => match spec_de(
                        c,
                        r,
                        attrs,
                        events,
                        i + 1,
                        true,
                    ) {
                        Ok((v, _)) => Ok(v),
                        Err(e) => Err(e),
                    },
                    _ => Err(ErrV::UnexpectedRoot),
                }
            },
            None => Err(ErrV::UnexpectedRoot),
        };
        match attempt {
            Ok(v) => Ok(v),
            Err(e) => match spec_try_roots(c, events, k + 1) {
                Ok(v) => Ok(v),
                Err(_) => Err(e),
            },
        }
    }
}

/// What reading a whole document yields: the text is tokenized, the
/// declared roots are tried in order, and the value is built.
pub open spec fn spec_deserialize_doc(c: Container, s: Seq<char>) -> Result<ValueV, ErrV> {
    if spec_root_names(c).len() == 0 {
        Err(ErrV::UnexpectedRoot)
    } else {
        match spec_tokenize(s) {
            None => Err(ErrV::StreamError),
            Some(events) => spec_try_roots(c, events, 0),
        }
    }
}

fn root_find(c: &Container, r: &Vec<char>, events: &Vec<XmlEvent>) -> (res: Option<usize>)
    ensures
        (match res {
            Some(i) => spec_root_find(*c, r@, evs_view(events@), 0) == Some(i as int) && i
                < events@.len(),
            None => spec_root_find(*c, r@, evs_view(events@), 0) is None,
        }),
{
    proof {
        assert(evs_view(events@).len() == events@.len());
    }
    let mut i: usize = 0;
    while i < events.len()
        invariant
            i <= events@.len(),
            evs_view(events@).len() == events@.len(),
            spec_root_find(*c, r@, evs_view(events@), 0) == spec_root_find(
                *c,
                r@,
                evs_view(events@),
                i as int,
            ),
        decreases events@.len() - i,
    {
        proof {
            assert(evs_view(events@)[i as int] == crate::events::ev_view(events@[i as int]));
        }
        let matched: bool = match &events[i] {
            XmlEvent::Start { name, attrs } => root_name_matches(c, name, r),
            XmlEvent::Empty { name, attrs } => root_name_matches(c, name, r),
            _ => false,
        };
        if matched {
            return Some(i);
        }
        i += 1;
    }
    None
}

fn root_name_matches(c: &Container, name: &Vec<char>, r: &Vec<char>) -> (res: bool)
    ensures
        res == ci_eq(convert_spec(rename_case(*c), name@), r@),
{
    let transformed: Vec<char> = match &c.rename_all {
        Some(case) => case.transform(name),
        None => crate::chars::clone_chars(name),
    };
    crate::chars::matches_ci(&transformed, r)
}

fn try_roots(c: &Container, roots: &Vec<Vec<char>>, events: &Vec<XmlEvent>, k: usize) -> (res:
    Result<Value, XmlError>)
    requires
        names_view(roots@) == spec_root_names(*c),
    ensures
        (match res {
            Ok(v) => spec_try_roots(*c, evs_view(events@), k as int) == Ok::<ValueV, ErrV>(
                value_view(v),
            ),
            Err(e) => spec_try_roots(*c, evs_view(events@), k as int) == Err::<ValueV, ErrV>(
                err_view(e),
            ),
        }),
    decreases roots@.len() - k,
{
    proof {
        assert(spec_root_names(*c).len() == roots@.len());
    }
    if k >= roots.len() {
        return Err(XmlError::UnexpectedRoot);
    }
    proof {
        assert(names_view(roots@)[k as int] == roots@[k as int]@);
    }
    let r = &roots[k];
    let n_events = events.len();
    let attempt: Result<Value, XmlError> = match root_find(c, r, events) {
        Some(i) => {
            proof {
                assert(i < n_events);
                assert(evs_view(events@)[i as int] == crate::events::ev_view(events@[i as int]));
            }
            match &events[i] {
                XmlEvent::Start { name, attrs } => {
                    match deserialize(c, r, attrs, events, i + 1, false) {
                        Ok((v, _)) => Ok(v),
                        Err(e) => Err(e),
                    }
                },
                XmlEvent::Empty { name, attrs } => {
                    match deserialize(c, r, attrs, events, i + 1, true) {
                        Ok((v, _)) => Ok(v),
                        Err(e) => Err(e),
                    }
                },
                _ => Err(XmlError::UnexpectedRoot),
            }
        },
        None => Err(XmlError::UnexpectedRoot),
    };
    match attempt {
        Ok(v) => Ok(v),
        Err(e) => {
            match try_roots(c, roots, events, k + 1) {
                Ok(v) => Ok(v),
                Err(_) => Err(e),
            }
        },
    }
}

/// Read a value of a schema from a document.
pub fn xml_deserialize_from_str(c: &Container, xml_str: &str) -> (r: Result<Value, XmlError>)
    ensures
        (match r {
            Ok(v) => spec_deserialize_doc(*c, xml_str@) == Ok::<ValueV, ErrV>(value_view(v)),
            Err(e) => spec_deserialize_doc(*c, xml_str@) == Err::<ValueV, ErrV>(err_view(e)),
        }),
{
    let roots = c.get_root_names();
    proof {
        assert(names_view(roots@) =~= spec_root_names(*c));
    }
    if roots.len() == 0 {
        return Err(XmlError::UnexpectedRoot);
    }
    let text = str_chars(xml_str);
    match tokenize(&text) {
        None => Err(XmlError::StreamError),
        Some(events) => try_roots(c, &roots, &events, 0),
    }
}

} // verus!
