//! The dynamic value tree that the mapping engine reads and writes, and
//! the opaque capture type that preserves an uninterpreted subtree.
use crate::chars::chars_eq;
use crate::events::{attr_view, attrs_view, ev_view, evs_view, Attr, AttrV, EventV, XmlEvent};
use vstd::prelude::*;

verus! {

/// A subtree kept verbatim: the attributes of its element and the raw
/// events between its start and its matching end.
#[derive(Debug, Clone)]
pub struct Unparsed {
    pub attrs: Vec<Attr>,
    pub data: Vec<XmlEvent>,
}

/// The mathematical form of an opaque capture.
pub struct UnparsedV {
    pub attrs: Seq<AttrV>,
    pub data: Seq<EventV>,
}

pub open spec fn unparsed_view(u: Unparsed) -> UnparsedV {
    UnparsedV { attrs: attrs_view(u.attrs@), data: evs_view(u.data@) }
}

/// A value of a mapped type.
#[derive(Debug)]
pub enum Value {
    Bool(bool),
    UInt(u64),
    Int(i64),
    Str(Vec<char>),
    /// A decimal number kept in its lexical form.
    Decimal(Vec<char>),
    /// A string-enum value: the index of its variant.
    EnumUnit(usize),
    /// The catch-all variant of a string-enum, with the text it carried.
    EnumOther(usize, Vec<char>),
    /// A record: one entry per field of its schema, in declaration order.
    Record(Vec<Value>),
    /// A sum value: the index of the active variant and its payload.
    Variant(usize, Option<Box<Value>>),
    List(Vec<Value>),
    Opt(Option<Box<Value>>),
    Unparsed(Unparsed),
}

/// The mathematical form of a value.
pub enum ValueV {
    Bool(bool),
    UInt(u64),
    Int(i64),
    Str(Seq<char>),
    Decimal(Seq<char>),
    EnumUnit(nat),
    EnumOther(nat, Seq<char>),
    Record(Seq<ValueV>),
    Variant(nat, Option<Box<ValueV>>),
    List(Seq<ValueV>),
    Opt(Option<Box<ValueV>>),
    Unparsed(UnparsedV),
}

pub open spec fn value_view(v: Value) -> ValueV
    decreases v,
{
    match v {
        Value::Bool(b) => ValueV::Bool(b),
        Value::UInt(n) => ValueV::UInt(n),
        Value::Int(n) => ValueV::Int(n),
        Value::Str(s) => ValueV::Str(s@),
        Value::Decimal(s) => ValueV::Decimal(s@),
        Value::EnumUnit(i) => ValueV::EnumUnit(i as nat),
        Value::EnumOther(i, s) => ValueV::EnumOther(i as nat, s@),
        Value::Record(fields) => ValueV::Record(values_view(fields@)),
        Value::Variant(i, payload) => ValueV::Variant(
            i as nat,
            match payload {
                Some(b) => Some(Box::new(value_view(*b))),
                None => None,
            },
        ),
        Value::List(items) => ValueV::List(values_view(items@)),
        Value::Opt(o) => ValueV::Opt(
            match o {
                Some(b) => Some(Box::new(value_view(*b))),
                None => None,
            },
        ),
        Value::Unparsed(u) => ValueV::Unparsed(unparsed_view(u)),
    }
}

pub open spec fn values_view(s: Seq<Value>) -> Seq<ValueV>
    decreases s,
{
    if s.len() == 0 {
        Seq::empty()
    } else {
        seq![value_view(s[0])] + values_view(s.drop_first())
    }
}

pub proof fn lemma_values_view_len(s: Seq<Value>)
    ensures
        values_view(s).len() == s.len(),
        forall|i: int| 0 <= i < s.len() ==> values_view(s)[i] == value_view(s[i]),
    decreases s,
{
    if s.len() > 0 {
        lemma_values_view_len(s.drop_first());
    }
}

pub proof fn lemma_values_view_push(s: Seq<Value>, v: Value)
    ensures
        values_view(s.push(v)) == values_view(s).push(value_view(v)),
    decreases s,
{
    lemma_values_view_len(s.push(v));
    lemma_values_view_len(s);
    assert(values_view(s.push(v)) =~= values_view(s).push(value_view(v)));
}

/// A copy of an opaque capture.
pub fn clone_unparsed(u: &Unparsed) -> (r: Unparsed)
    ensures
        unparsed_view(r) == unparsed_view(*u),
{
    Unparsed {
        attrs: crate::events::clone_attrs(&u.attrs),
        data: crate::events::clone_events(&u.data),
    }
}

/// A copy of a value.
pub fn clone_value(v: &Value) -> (r: Value)
    ensures
        value_view(r) == value_view(*v),
    decreases *v,
{
    match v {
        Value::Bool(b) => Value::Bool(*b),
        Value::UInt(n) => Value::UInt(*n),
        Value::Int(n) => Value::Int(*n),
        Value::Str(s) => Value::Str(crate::chars::clone_chars(s)),
        Value::Decimal(s) => Value::Decimal(crate::chars::clone_chars(s)),
        Value::EnumUnit(i) => Value::EnumUnit(*i),
        Value::EnumOther(i, s) => Value::EnumOther(*i, crate::chars::clone_chars(s)),
        Value::Record(fields) => Value::Record(clone_values(fields)),
        Value::Variant(i, payload) => Value::Variant(
            *i,
            match payload {
                Some(b) => Some(Box::new(clone_value(&**b))),
                None => None,
            },
        ),
        Value::List(items) => Value::List(clone_values(items)),
        Value::Opt(o) => Value::Opt(
            match o {
                Some(b) => Some(Box::new(clone_value(&**b))),
                None => None,
            },
        ),
        Value::Unparsed(u) => Value::Unparsed(clone_unparsed(u)),
    }
}

/// A copy of a list of values.
pub fn clone_values(vs: &Vec<Value>) -> (r: Vec<Value>)
    ensures
        values_view(r@) == values_view(vs@),
    decreases vs@,
{
    proof {
        lemma_values_view_len(vs@);
    }
    let mut r: Vec<Value> = Vec::new();
    let mut i: usize = 0;
    while i < vs.len()
        invariant
            i <= vs@.len(),
            r@.len() == i,
            values_view(vs@).len() == vs@.len(),
            forall|j: int| 0 <= j < vs@.len() ==> values_view(vs@)[j] == value_view(vs@[j]),
            forall|j: int| 0 <= j < i ==> value_view(r@[j]) == value_view(vs@[j]),
        decreases vs@.len() - i,
    {
        proof {
            assert(decreases_to!(vs@ => vs@[i as int]));
        }
        let e = clone_value(&vs[i]);
        r.push(e);
        i += 1;
    }
    proof {
        lemma_values_view_len(r@);
        assert(values_view(r@) =~= values_view(vs@));
    }
    r
}

/// Exact equality of two attribute lists.
pub fn attrs_eq(a: &Vec<Attr>, b: &Vec<Attr>) -> (r: bool)
    ensures
        r == (attrs_view(a@) == attrs_view(b@)),
{
    if a.len() != b.len() {
        proof {
            assert(attrs_view(a@).len() != attrs_view(b@).len());
        }
        return false;
    }
    let mut i: usize = 0;
    while i < a.len()
        invariant
            i <= a@.len(),
            a@.len() == b@.len(),
            forall|j: int| 0 <= j < i ==> attr_view(a@[j]) == attr_view(b@[j]),
        decreases a@.len() - i,
    {
        if !chars_eq(&a[i].name, &b[i].name) || !chars_eq(&a[i].value, &b[i].value) {
            proof {
                assert(attrs_view(a@)[i as int] != attrs_view(b@)[i as int]);
            }
            return false;
        }
        i += 1;
    }
    proof {
        assert(attrs_view(a@) =~= attrs_view(b@));
    }
    true
}

/// Exact equality of two events.
pub fn event_eq(a: &XmlEvent, b: &XmlEvent) -> (r: bool)
    ensures
        r == (ev_view(*a) == ev_view(*b)),
{
    match (a, b) {
        (
            XmlEvent::Start { name: n1, attrs: a1 },
            XmlEvent::Start { name: n2, attrs: a2 },
        ) => chars_eq(n1, n2) && attrs_eq(a1, a2),
        (
            XmlEvent::Empty { name: n1, attrs: a1 },
            XmlEvent::Empty { name: n2, attrs: a2 },
        ) => chars_eq(n1, n2) && attrs_eq(a1, a2),
        (XmlEvent::End { name: n1 }, XmlEvent::End { name: n2 }) => chars_eq(n1, n2),
        (XmlEvent::Text { content: c1 }, XmlEvent::Text { content: c2 }) => chars_eq(c1, c2),
        _ => {
            proof {
                assert(ev_view(*a) != ev_view(*b));
            }
            false
        },
    }
}

/// Exact equality of two event lists.
pub fn events_eq(a: &Vec<XmlEvent>, b: &Vec<XmlEvent>) -> (r: bool)
    ensures
        r == (evs_view(a@) == evs_view(b@)),
{
    if a.len() != b.len() {
        proof {
            assert(evs_view(a@).len() != evs_view(b@).len());
        }
        return false;
    }
    let mut i: usize = 0;
    while i < a.len()
        invariant
            i <= a@.len(),
            a@.len() == b@.len(),
            forall|j: int| 0 <= j < i ==> ev_view(a@[j]) == ev_view(b@[j]),
        decreases a@.len() - i,
    {
        if !event_eq(&a[i], &b[i]) {
            proof {
                assert(evs_view(a@)[i as int] != evs_view(b@)[i as int]);
            }
            return false;
        }
        i += 1;
    }
    proof {
        assert(evs_view(a@) =~= evs_view(b@));
    }
    true
}

/// Equality of two values, as their mathematical forms.
pub fn value_eq(a: &Value, b: &Value) -> (r: bool)
    ensures
        r == (value_view(*a) == value_view(*b)),
    decreases *a,
{
    match (a, b) {
        (Value::Bool(x), Value::Bool(y)) => *x == *y,
        (Value::UInt(x), Value::UInt(y)) => *x == *y,
        (Value::Int(x), Value::Int(y)) => *x == *y,
        (Value::Str(x), Value::Str(y)) => chars_eq(x, y),
        (Value::Decimal(x), Value::Decimal(y)) => chars_eq(x, y),
        (Value::EnumUnit(x), Value::EnumUnit(y)) => *x == *y,
        (Value::EnumOther(x, s), Value::EnumOther(y, t)) => *x == *y && chars_eq(s, t),
        (Value::Record(xs), Value::Record(ys)) => values_eq(xs, ys),
        (Value::Variant(x, p), Value::Variant(y, q)) => {
            if *x != *y {
                return false;
            }
            match (p, q) {
                (Some(bp), Some(bq)) => value_eq(&**bp, &**bq),
                (None, None) => true,
                _ => {
                    proof {
                        assert(value_view(*a) != value_view(*b));
                    }
                    false
                },
            }
        },
        (Value::List(xs), Value::List(ys)) => values_eq(xs, ys),
        (Value::Opt(p), Value::Opt(q)) => {
            match (p, q) {
                (Some(bp), Some(bq)) => value_eq(&**bp, &**bq),
                (None, None) => true,
                _ => {
                    proof {
                        assert(value_view(*a) != value_view(*b));
                    }
                    false
                },
            }
        },
        (Value::Unparsed(u), Value::Unparsed(w)) => attrs_eq(&u.attrs, &w.attrs) && events_eq(
            &u.data,
            &w.data,
        ),
        _ => {
            proof {
                assert(value_view(*a) != value_view(*b));
            }
            false
        },
    }
}

/// Equality of two value lists, element by element.
pub fn values_eq(a: &Vec<Value>, b: &Vec<Value>) -> (r: bool)
    ensures
        r == (values_view(a@) == values_view(b@)),
    decreases a@,
{
    proof {
        lemma_values_view_len(a@);
        lemma_values_view_len(b@);
    }
    if a.len() != b.len() {
        return false;
    }
    let mut i: usize = 0;
    while i < a.len()
        invariant
            i <= a@.len(),
            a@.len() == b@.len(),
            values_view(a@).len() == a@.len(),
            values_view(b@).len() == b@.len(),
            forall|j: int| 0 <= j < a@.len() ==> values_view(a@)[j] == value_view(a@[j]),
            forall|j: int| 0 <= j < b@.len() ==> values_view(b@)[j] == value_view(b@[j]),
            forall|j: int| 0 <= j < i ==> value_view(a@[j]) == value_view(b@[j]),
        decreases a@.len() - i,
    {
        proof {
            assert(decreases_to!(a@ => a@[i as int]));
        }
        let ae = &a[i];
        let be = &b[i];
        if !value_eq(ae, be) {
            proof {
                assert(values_view(a@)[i as int] != values_view(b@)[i as int]);
            }
            return false;
        }
        i += 1;
    }
    proof {
        assert(values_view(a@) =~= values_view(b@));
    }
    true
}

} // verus!
