//! The serialization engine: walks a value tree under its schema,
//! depth-first, and emits document events. Attribute defaults are
//! elided, emptiness is detected, and untagged children delegate their
//! wrapper to the nested value.
use crate::chars::clone_chars;
use crate::events::{attrs_view, evs_view, Attr, AttrV, EventV, XmlEvent};
use crate::num::{fmt_i64, fmt_u64, spec_fmt_int, spec_fmt_nat};
use crate::schema::{
    names_view, spec_field_name, Arity, Container, EleType, EnumMapping, FieldPayload, ScalarKind,
    StructField,
};
use crate::value::{value_eq, value_view, Unparsed, Value};
use vstd::prelude::*;

verus! {

/// The rendered text of a scalar value; an ill-matched pair renders as
/// nothing.
pub open spec fn spec_render(kind: ScalarKind, v: Value) -> Seq<char> {
    match (kind, v) {
        (ScalarKind::SBool, Value::Bool(b)) => if b {
            "1"@
        } else {
            "0"@
        },
        (ScalarKind::SString, Value::Str(s)) => s@,
        (ScalarKind::SDecimal, Value::Decimal(s)) => s@,
        (ScalarKind::SU8, Value::UInt(n)) => spec_fmt_nat(n as nat),
        (ScalarKind::SU16, Value::UInt(n)) => spec_fmt_nat(n as nat),
        (ScalarKind::SU32, Value::UInt(n)) => spec_fmt_nat(n as nat),
        (ScalarKind::SU64, Value::UInt(n)) => spec_fmt_nat(n as nat),
        (ScalarKind::SI8, Value::Int(n)) => spec_fmt_int(n as int),
        (ScalarKind::SI16, Value::Int(n)) => spec_fmt_int(n as int),
        (ScalarKind::SI32, Value::Int(n)) => spec_fmt_int(n as int),
        (ScalarKind::SI64, Value::Int(n)) => spec_fmt_int(n as int),
        (ScalarKind::SEnum(m), Value::EnumUnit(i)) => if i < m.variants.len() {
            m.variants[i as int].value@
        } else {
            Seq::empty()
        },
        (ScalarKind::SEnum(m), Value::EnumOther(i, s)) => s@,
        _ => Seq::empty(),
    }
}

/// Render a scalar value.
pub fn render_scalar(kind: &ScalarKind, v: &Value) -> (r: Vec<char>)
    ensures
        r@ == spec_render(*kind, *v),
{
    match (kind, v) {
        (ScalarKind::SBool, Value::Bool(b)) => {
            let mut r: Vec<char> = Vec::new();
            if *b {
                r.push('1');
                proof {
                    reveal_strlit("1");
                    assert(r@ =~= "1"@);
                }
            } else {
                r.push('0');
                proof {
                    reveal_strlit("0");
                    assert(r@ =~= "0"@);
                }
            }
            r
        },
        (ScalarKind::SString, Value::Str(s)) => clone_chars(s),
        (ScalarKind::SDecimal, Value::Decimal(s)) => clone_chars(s),
        (ScalarKind::SU8, Value::UInt(n)) => fmt_u64(*n),
        (ScalarKind::SU16, Value::UInt(n)) => fmt_u64(*n),
        (ScalarKind::SU32, Value::UInt(n)) => fmt_u64(*n),
        (ScalarKind::SU64, Value::UInt(n)) => fmt_u64(*n),
        (ScalarKind::SI8, Value::Int(n)) => fmt_i64(*n),
        (ScalarKind::SI16, Value::Int(n)) => fmt_i64(*n),
        (ScalarKind::SI32, Value::Int(n)) => fmt_i64(*n),
        (ScalarKind::SI64, Value::Int(n)) => fmt_i64(*n),
        (ScalarKind::SEnum(m), Value::EnumUnit(i)) => {
            if *i < m.variants.len() {
                clone_chars(&m.variants[*i].value)
            } else {
                Vec::new()
            }
        },
        (ScalarKind::SEnum(m), Value::EnumOther(i, s)) => clone_chars(s),
        _ => {
            let r: Vec<char> = Vec::new();
            proof {
                assert(r@ =~= spec_render(*kind, *v));
            }
            r
        },
    }
}

/// The name a field is written under; a nameless field writes under the
/// empty name.
pub open spec fn ser_name(c: Container, f: StructField) -> Seq<char> {
    match spec_field_name(c, f) {
        Some(n) => n,
        None => Seq::empty(),
    }
}

/// The namespace attributes of an element: the default namespace, then
/// each custom prefix.
pub open spec fn spec_ns_attrs(c: Container) -> Seq<AttrV> {
    (match c.with_ns {
        Some(ns) => seq![AttrV { name: "xmlns"@, value: ns@ }],
        None => Seq::empty(),
    }) + spec_custom_ns(c.custom_ns@)
}

pub open spec fn spec_custom_ns(s: Seq<(Vec<char>, Vec<char>)>) -> Seq<AttrV>
    decreases s.len(),
{
    if s.len() == 0 {
        Seq::empty()
    } else {
        spec_custom_ns(s.drop_last()) + seq![
            AttrV { name: "xmlns:"@ + s.last().0@, value: s.last().1@ },
        ]
    }
}

/// The attribute entries contributed by the fields from `i` on: an
/// optional attribute is skipped when absent, a defaulted one when its
/// value equals the default.
pub open spec fn spec_field_attrs(c: Container, fields: Seq<Value>, i: int) -> Seq<AttrV>
    decreases c.struct_fields@.len() - i,
{
    if i < 0 || i >= c.struct_fields@.len() {
        Seq::empty()
    } else {
        spec_attr_head(c, fields, i) + spec_field_attrs(c, fields, i + 1)
    }
}

pub open spec fn spec_attr_head(c: Container, fields: Seq<Value>, i: int) -> Seq<AttrV> {
    let f = c.struct_fields@[i];
    if !(f.ty is Attr) || i >= fields.len() {
        Seq::empty()
    } else {
        match f.payload {
            FieldPayload::Scalar(kind) => match f.generic {
                Arity::Optional => match fields[i] {
                    Value::Opt(Some(b)) => seq![
                        AttrV { name: ser_name(c, f), value: spec_render(kind, *b) },
                    ],
                    _ => Seq::empty(),
                },
                Arity::List => Seq::empty(),
                _ => match f.default {
                    Some(d) => if value_view(d) == value_view(fields[i]) {
                        Seq::empty()
                    } else {
                        seq![AttrV { name: ser_name(c, f), value: spec_render(kind, fields[i]) }]
                    },
                    None => seq![
                        AttrV { name: ser_name(c, f), value: spec_render(kind, fields[i]) },
                    ],
                },
            },
            _ => Seq::empty(),
        }
    }
}

/// Whether a child or marker field contributes content.
pub open spec fn spec_child_present(c: Container, fields: Seq<Value>, i: int) -> bool {
    let f = c.struct_fields@[i];
    if i >= fields.len() {
        false
    } else if f.ty is SelfClosedChild {
        fields[i] == Value::Bool(true)
    } else if f.ty is Child {
        match f.generic {
            Arity::List => match fields[i] {
                Value::List(items) => items.len() > 0,
                _ => false,
            },
            Arity::Optional => match fields[i] {
                Value::Opt(o) => o is Some,
                _ => false,
            },
            _ => match f.default {
                Some(d) => value_view(fields[i]) != value_view(d),
                None => true,
            },
        }
    } else {
        false
    }
}

/// Whether the text field contributes content.
pub open spec fn spec_text_present(c: Container, fields: Seq<Value>, i: int) -> bool {
    let f = c.struct_fields@[i];
    if i >= fields.len() || !(f.ty is Text) {
        false
    } else if f.generic is Optional {
        match fields[i] {
            Value::Opt(o) => o is Some,
            _ => false,
        }
    } else {
        match f.default {
            Some(d) => value_view(fields[i]) != value_view(d),
            None => true,
        }
    }
}

/// Whether any field makes the element non-empty.
pub open spec fn spec_has_content(c: Container, fields: Seq<Value>) -> bool {
    exists|i: int|
        0 <= i < c.struct_fields@.len() && (spec_child_present(c, fields, i) || spec_text_present(
            c,
            fields,
            i,
        ))
}

/// Whether the record carries untagged fields; such a record is never
/// written as an empty element.
pub open spec fn spec_has_untag(c: Container) -> bool {
    exists|i: int|
        0 <= i < c.struct_fields@.len() && (c.struct_fields@[i].ty is Untag
            || c.struct_fields@[i].ty is UntaggedEnum || c.struct_fields@[i].ty is UntaggedStruct)
}

/// The replayed form of an opaque capture under a tag.
pub open spec fn spec_emit(attrs: Seq<AttrV>, data: Seq<EventV>, tag: Seq<char>) -> Seq<EventV> {
    if data.len() > 0 {
        seq![EventV::Start { name: tag, attrs }] + data + seq![EventV::End { name: tag }]
    } else {
        seq![EventV::Empty { name: tag, attrs }]
    }
}

/// The events of one value under a field payload.
pub open spec fn spec_ser_payload(p: FieldPayload, v: Value, tag: Seq<char>) -> Seq<EventV>
    decreases p, 2int, 0int,
{
    match p {
        FieldPayload::Nested(b) => spec_ser(*b, v, tag),
        FieldPayload::Opaque => match v {
            Value::Unparsed(u) => spec_emit(
                attrs_view(u.attrs@),
                evs_view(u.data@),
                tag,
            ),
            _ => Seq::empty(),
        },
        _ => Seq::empty(),
    }
}

/// The events of a list of values under one payload and tag, in order.
pub open spec fn spec_ser_payload_many(
    p: FieldPayload,
    items: Seq<Value>,
    tag: Seq<char>,
) -> Seq<EventV>
    decreases p, 3int, items.len(),
{
    if items.len() == 0 {
        Seq::empty()
    } else {
        spec_ser_payload(p, items[0], tag) + spec_ser_payload_many(p, items.drop_first(), tag)
    }
}

/// The marker events of the self-closing fields from `i` on.
pub open spec fn spec_sfc_events(c: Container, fields: Seq<Value>, i: int) -> Seq<EventV>
    decreases c.struct_fields@.len() - i,
{
    if i < 0 || i >= c.struct_fields@.len() {
        Seq::empty()
    } else {
        let f = c.struct_fields@[i];
        let head: Seq<EventV> = if f.ty is SelfClosedChild && i < fields.len() && fields[i]
            == Value::Bool(true) {
            seq![EventV::Empty { name: ser_name(c, f), attrs: Seq::empty() }]
        } else {
            Seq::empty()
        };
        head + spec_sfc_events(c, fields, i + 1)
    }
}

/// The events of the child fields from `i` on.
pub open spec fn spec_child_events(c: Container, fields: Seq<Value>, i: int) -> Seq<EventV>
    decreases c, 1int, c.struct_fields@.len() - i,
{
    if i < 0 || i >= c.struct_fields@.len() {
        Seq::empty()
    } else {
        let f = c.struct_fields@[i];
        let head: Seq<EventV> = if f.ty is Child && !f.skip_serializing && i < fields.len() {
            match f.generic {
                Arity::List => match fields[i] {
                    Value::List(items) => spec_ser_payload_many(f.payload, items@, ser_name(c, f)),
                    _ => Seq::empty(),
                },
                Arity::Optional => match fields[i] {
                    Value::Opt(Some(b)) => spec_ser_payload(f.payload, *b, ser_name(c, f)),
                    _ => Seq::empty(),
                },
                _ => spec_ser_payload(f.payload, fields[i], ser_name(c, f)),
            }
        } else {
            Seq::empty()
        };
        head + spec_child_events(c, fields, i + 1)
    }
}

/// The events of the untagged fields from `i` on: each nested value is
/// written with an empty tag, so that it provides its own wrapper.
pub open spec fn spec_untag_events(c: Container, fields: Seq<Value>, i: int) -> Seq<EventV>
    decreases c, 1int, c.struct_fields@.len() - i,
{
    if i < 0 || i >= c.struct_fields@.len() {
        Seq::empty()
    } else {
        let f = c.struct_fields@[i];
        let head: Seq<EventV> = if (f.ty is Untag || f.ty is UntaggedEnum
            || f.ty is UntaggedStruct) && i < fields.len() {
            match f.generic {
                Arity::List => match fields[i] {
                    Value::List(items) => spec_ser_payload_many(f.payload, items@, Seq::empty()),
                    _ => Seq::empty(),
                },
                Arity::Optional => match fields[i] {
                    Value::Opt(Some(b)) => spec_ser_payload(f.payload, *b, Seq::empty()),
                    _ => Seq::empty(),
                },
                _ => spec_ser_payload(f.payload, fields[i], Seq::empty()),
            }
        } else {
            Seq::empty()
        };
        head + spec_untag_events(c, fields, i + 1)
    }
}

/// The index of the text field, if any.
pub open spec fn spec_text_field(c: Container, i: int) -> Option<int>
    decreases c.struct_fields@.len() - i,
{
    if i < 0 || i >= c.struct_fields@.len() {
        None
    } else if c.struct_fields@[i].ty is Text {
        Some(i)
    } else {
        spec_text_field(c, i + 1)
    }
}

/// The inner content of a record element: its text when it has a text
/// field, else its markers, children and untagged children.
pub open spec fn spec_struct_content(c: Container, fields: Seq<Value>) -> Seq<EventV>
    decreases c, 2int, 0int,
{
    match spec_text_field(c, 0) {
        Some(i) => {
            let f = c.struct_fields@[i];
            if i >= fields.len() {
                Seq::empty()
            } else {
                match f.payload {
                    FieldPayload::Scalar(kind) => if f.generic is Optional || f.generic is Boxed {
                        match fields[i] {
                            Value::Opt(Some(b)) => seq![
                                EventV::Text { content: spec_render(kind, *b) },
                            ],
                            _ => Seq::empty(),
                        }
                    } else {
                        seq![EventV::Text { content: spec_render(kind, fields[i]) }]
                    },
                    _ => Seq::empty(),
                }
            }
        },
        None => spec_sfc_events(c, fields, 0) + spec_child_events(c, fields, 0)
            + spec_untag_events(c, fields, 0),
    }
}

/// The events of a record value under a tag.
pub open spec fn spec_ser_struct(c: Container, fields: Seq<Value>, tag: Seq<char>) -> Seq<EventV>
    decreases c, 3int, 0int,
{
    let attrs = spec_ns_attrs(c) + spec_field_attrs(c, fields, 0);
    if tag.len() == 0 {
        spec_struct_content(c, fields)
    } else if !spec_has_content(c, fields) && !spec_has_untag(c) {
        seq![EventV::Empty { name: tag, attrs }]
    } else {
        seq![EventV::Start { name: tag, attrs }] + spec_struct_content(c, fields) + seq![
            EventV::End { name: tag },
        ]
    }
}

/// The events of a sum value under a tag: a unit variant is its own
/// empty element, a text variant is bare text, a payload variant is
/// written under its discriminator; a non-empty tag wraps the result.
pub open spec fn spec_ser_enum(c: Container, v: Value, tag: Seq<char>) -> Seq<EventV>
    decreases c, 2int, 0int,
{
    match v {
        Value::Variant(idx, payload) => if idx < c.enum_variants@.len() {
            let var = c.enum_variants@[idx as int];
            let vname: Seq<char> = match var.name {
                Some(n) => n@,
                None => Seq::empty(),
            };
            if var.ele_type is Text {
                match (var.payload, payload) {
                    (Some(FieldPayload::Scalar(kind)), Some(b)) => seq![
                        EventV::Text { content: spec_render(kind, *b) },
                    ],
                    _ => Seq::empty(),
                }
            } else {
                match (var.payload, payload) {
                    (Some(p), Some(b)) => if tag.len() == 0 {
                        spec_ser_payload(p, *b, vname)
                    } else {
                        seq![
                            EventV::Start { name: tag, attrs: Seq::empty() },
                        ] + spec_ser_payload(p, *b, vname) + seq![EventV::End { name: tag }]
                    },
                    _ => if tag.len() == 0 {
                        seq![EventV::Empty { name: vname, attrs: Seq::empty() }]
                    } else {
                        seq![
                            EventV::Start { name: tag, attrs: Seq::empty() },
                            EventV::Empty { name: vname, attrs: Seq::empty() },
                            EventV::End { name: tag },
                        ]
                    },
                }
            }
        } else {
            Seq::empty()
        },
        _ => Seq::empty(),
    }
}

/// The events of a value under its schema and a tag: an empty tag means
/// an untagged invocation, which writes no wrapper of its own.
pub open spec fn spec_ser(c: Container, v: Value, tag: Seq<char>) -> Seq<EventV>
    decreases c, 4int, 0int,
{
    if c.enum_variants@.len() > 0 {
        spec_ser_enum(c, v, tag)
    } else {
        match v {
            Value::Record(fields) => spec_ser_struct(c, fields@, tag),
            _ => Seq::empty(),
        }
    }
}

pub proof fn lemma_ser_many_push(p: FieldPayload, items: Seq<Value>, x: Value, tag: Seq<char>)
    ensures
        spec_ser_payload_many(p, items.push(x), tag) == spec_ser_payload_many(p, items, tag)
            + spec_ser_payload(p, x, tag),
    decreases items.len(),
{
    let s = items.push(x);
    if items.len() == 0 {
        assert(s[0] == x);
        assert(s.drop_first() =~= Seq::<Value>::empty());
        assert(spec_ser_payload_many(p, s, tag) == spec_ser_payload(p, s[0], tag)
            + spec_ser_payload_many(p, s.drop_first(), tag));
        assert(spec_ser_payload_many(p, s.drop_first(), tag) == Seq::<EventV>::empty());
        assert(spec_ser_payload_many(p, items, tag) == Seq::<EventV>::empty());
        assert(spec_ser_payload_many(p, s, tag) =~= spec_ser_payload_many(p, items, tag)
            + spec_ser_payload(p, x, tag));
    } else {
        lemma_ser_many_push(p, items.drop_first(), x, tag);
        assert(s.drop_first() =~= items.drop_first().push(x));
        assert(s[0] == items[0]);
        assert(spec_ser_payload_many(p, s, tag) == spec_ser_payload(p, s[0], tag)
            + spec_ser_payload_many(p, s.drop_first(), tag));
        assert(spec_ser_payload_many(p, items, tag) == spec_ser_payload(p, items[0], tag)
            + spec_ser_payload_many(p, items.drop_first(), tag));
        assert(spec_ser_payload_many(p, s, tag) =~= spec_ser_payload_many(p, items, tag)
            + spec_ser_payload(p, x, tag));
    }
}

/// Build the attribute list of a record element.
fn build_attrs(c: &Container, fields: &Vec<Value>) -> (r: Vec<Attr>)
    ensures
        attrs_view(r@) == spec_ns_attrs(*c) + spec_field_attrs(*c, fields@, 0),
{
    let mut r: Vec<Attr> = Vec::new();
    match &c.with_ns {
        Some(ns) => {
            r.push(Attr { name: crate::chars::str_chars("xmlns"), value: clone_chars(ns) });
        },
        None => {},
    }
    let mut i: usize = 0;
    while i < c.custom_ns.len()
        invariant
            i <= c.custom_ns@.len(),
            attrs_view(r@) == (match c.with_ns {
                Some(ns) => seq![AttrV { name: "xmlns"@, value: ns@ }],
                None => Seq::<AttrV>::empty(),
            }) + spec_custom_ns(c.custom_ns@.take(i as int)),
        decreases c.custom_ns@.len() - i,
    {
        let ghost before = r@;
        let mut name = crate::chars::str_chars("xmlns:");
        crate::events::push_chars(&mut name, &c.custom_ns[i].0);
        let ghost name_v = name@;
        let value = clone_chars(&c.custom_ns[i].1);
        let ghost value_v = value@;
        r.push(Attr { name, value });
        proof {
            assert(c.custom_ns@.take(i + 1).drop_last() =~= c.custom_ns@.take(i as int));
            assert(c.custom_ns@.take(i + 1).last() == c.custom_ns@[i as int]);
            assert(spec_custom_ns(c.custom_ns@.take(i + 1)) == spec_custom_ns(
                c.custom_ns@.take(i as int),
            ) + seq![AttrV { name: "xmlns:"@ + c.custom_ns@[i as int].0@, value: c.custom_ns@[
                i as int].1@ }]);
            assert(attrs_view(r@) =~= attrs_view(before) + seq![
                AttrV { name: name_v, value: value_v },
            ]);
            assert(attrs_view(r@) =~= (match c.with_ns {
                Some(ns) => seq![AttrV { name: "xmlns"@, value: ns@ }],
                None => Seq::<AttrV>::empty(),
            }) + spec_custom_ns(c.custom_ns@.take(i + 1)));
        }
        i += 1;
    }
    proof {
        assert(c.custom_ns@.take(c.custom_ns@.len() as int) =~= c.custom_ns@);
        assert(attrs_view(r@) =~= spec_ns_attrs(*c));
    }
    let ghost ns_part = attrs_view(r@);
    let mut i: usize = 0;
    while i < c.struct_fields.len()
        invariant
            i <= c.struct_fields@.len(),
            ns_part == spec_ns_attrs(*c),
            attrs_view(r@) + spec_field_attrs(*c, fields@, i as int) == ns_part + spec_field_attrs(
                *c,
                fields@,
                0,
            ),
        decreases c.struct_fields@.len() - i,
    {
        let ghost before = r@;
        proof {
            assert(spec_field_attrs(*c, fields@, i as int) == spec_attr_head(*c, fields@, i as int)
                + spec_field_attrs(*c, fields@, i + 1));
        }
        let f = &c.struct_fields[i];
        if matches!(f.ty, EleType::Attr) && i < fields.len() {
            match &f.payload {
                FieldPayload::Scalar(kind) => {
                    match &f.generic {
                        Arity::Optional => {
                            match &fields[i] {
                                Value::Opt(Some(b)) => {
                                    let name = match c.get_field_name(f) {
                                        Some(n) => n,
                                        None => Vec::new(),
                                    };
                                    proof {
                                        assert(name@ == ser_name(*c, *f));
                                    }
                                    r.push(Attr { name, value: render_scalar(kind, &**b) });
                                    proof {
                                        assert(attrs_view(r@) =~= attrs_view(before)
                                            + spec_attr_head(*c, fields@, i as int));
                                    }
                                },
                                _ => {
                                    proof {
                                        assert(attrs_view(r@) + spec_attr_head(
                                            *c,
                                            fields@,
                                            i as int,
                                        ) =~= attrs_view(r@));
                                    }
                                },
                            }
                        },
                        Arity::List => {
                            proof {
                                assert(attrs_view(r@) + spec_attr_head(*c, fields@, i as int)
                                    =~= attrs_view(r@));
                            }
                        },
                        _ => {
                            let skip: bool = match &f.default {
                                Some(d) => value_eq(d, &fields[i]),
                                None => false,
                            };
                            if skip {
                                proof {
                                    assert(attrs_view(r@) + spec_attr_head(*c, fields@, i as int)
                                        =~= attrs_view(r@));
                                }
                            } else {
                                let name = match c.get_field_name(f) {
                                    Some(n) => n,
                                    None => Vec::new(),
                                };
                                proof {
                                    assert(name@ == ser_name(*c, *f));
                                }
                                r.push(Attr { name, value: render_scalar(kind, &fields[i]) });
                                proof {
                                    assert(attrs_view(r@) =~= attrs_view(before) + spec_attr_head(
                                        *c,
                                        fields@,
                                        i as int,
                                    ));
                                }
                            }
                        },
                    }
                },
                _ => {
                    proof {
                        assert(attrs_view(r@) + spec_attr_head(*c, fields@, i as int)
                            =~= attrs_view(r@));
                    }
                },
            }
        } else {
            proof {
                assert(attrs_view(r@) + spec_attr_head(*c, fields@, i as int) =~= attrs_view(r@));
            }
        }
        proof {
            assert((attrs_view(before) + spec_attr_head(*c, fields@, i as int)) + spec_field_attrs(
                *c,
                fields@,
                i + 1,
            ) =~= attrs_view(before) + spec_field_attrs(*c, fields@, i as int));
        }
        i += 1;
    }
    proof {
        assert(spec_field_attrs(*c, fields@, c.struct_fields@.len() as int)
            =~= Seq::<AttrV>::empty());
        assert(attrs_view(r@) + Seq::<AttrV>::empty() =~= attrs_view(r@));
    }
    r
}

/// Whether any field makes the element non-empty.
fn has_content(c: &Container, fields: &Vec<Value>) -> (r: bool)
    ensures
        r == spec_has_content(*c, fields@),
{
    let mut i: usize = 0;
    while i < c.struct_fields.len()
        invariant
            i <= c.struct_fields@.len(),
            forall|j: int|
                0 <= j < i ==> !spec_child_present(*c, fields@, j) && !spec_text_present(
                    *c,
                    fields@,
                    j,
                ),
        decreases c.struct_fields@.len() - i,
    {
        let f = &c.struct_fields[i];
        if i < fields.len() {
            let fv = &fields[i];
            match f.ty {
                EleType::SelfClosedChild => {
                    if matches!(fv, Value::Bool(true)) {
                        proof {
                            assert(spec_child_present(*c, fields@, i as int));
                        }
                        return true;
                    }
                },
                EleType::Child => {
                    let present: bool = match &f.generic {
                        Arity::List => match fv {
                            Value::List(items) => items.len() > 0,
                            _ => false,
                        },
                        Arity::Optional => matches!(fv, Value::Opt(Some(_))),
                        _ => match &f.default {
                            Some(d) => !value_eq(fv, d),
                            None => true,
                        },
                    };
                    if present {
                        proof {
                            assert(spec_child_present(*c, fields@, i as int));
                        }
                        return true;
                    }
                },
                EleType::Text => {
                    let present: bool = if matches!(f.generic, Arity::Optional) {
                        matches!(fv, Value::Opt(Some(_)))
                    } else {
                        match &f.default {
                            Some(d) => !value_eq(fv, d),
                            None => true,
                        }
                    };
                    if present {
                        proof {
                            assert(spec_text_present(*c, fields@, i as int));
                        }
                        return true;
                    }
                },
                _ => {},
            }
        }
        i += 1;
    }
    false
}

/// Whether the record has untagged fields.
fn has_untag(c: &Container) -> (r: bool)
    ensures
        r == spec_has_untag(*c),
{
    let mut i: usize = 0;
    while i < c.struct_fields.len()
        invariant
            i <= c.struct_fields@.len(),
            forall|j: int|
                0 <= j < i ==> !(c.struct_fields@[j].ty is Untag || c.struct_fields@[j].ty
                    is UntaggedEnum || c.struct_fields@[j].ty is UntaggedStruct),
        decreases c.struct_fields@.len() - i,
    {
        if matches!(
            c.struct_fields[i].ty,
            EleType::Untag | EleType::UntaggedEnum | EleType::UntaggedStruct,
        ) {
            return true;
        }
        i += 1;
    }
    false
}

/// The index of the text field, if any.
pub fn text_field_index(c: &Container) -> (r: Option<usize>)
    ensures
        (match r {
            Some(i) => spec_text_field(*c, 0) == Some(i as int) && i < c.struct_fields@.len()
                && c.struct_fields@[i as int].ty is Text,
            None => spec_text_field(*c, 0) is None,
        }),
{
    let mut i: usize = 0;
    while i < c.struct_fields.len()
        invariant
            i <= c.struct_fields@.len(),
            spec_text_field(*c, 0) == spec_text_field(*c, i as int),
        decreases c.struct_fields@.len() - i,
    {
        if matches!(c.struct_fields[i].ty, EleType::Text) {
            return Some(i);
        }
        i += 1;
    }
    None
}

/// Write one value under a field payload.
fn ser_payload(p: &FieldPayload, v: &Value, tag: &Vec<char>, out: &mut Vec<XmlEvent>)
    ensures
        evs_view(final(out)@) == evs_view(old(out)@) + spec_ser_payload(*p, *v, tag@),
    decreases *p, 2int, 0int,
{
    match p {
        FieldPayload::Nested(b) => {
            serialize(&**b, v, tag, out);
        },
        FieldPayload::Opaque => {
            match v {
                Value::Unparsed(u) => {
                    let ghost before = out@;
                    if u.data.len() > 0 {
                        out.push(
                            XmlEvent::Start {
                                name: clone_chars(tag),
                                attrs: crate::events::clone_attrs(&u.attrs),
                            },
                        );
                        let mut data = crate::events::clone_events(&u.data);
                        let ghost data0 = data@;
                        out.append(&mut data);
                        out.push(XmlEvent::End { name: clone_chars(tag) });
                        proof {
                            assert(evs_view(out@) =~= evs_view(before) + spec_emit(
                                attrs_view(u.attrs@),
                                evs_view(u.data@),
                                tag@,
                            ));
                        }
                    } else {
                        out.push(
                            XmlEvent::Empty {
                                name: clone_chars(tag),
                                attrs: crate::events::clone_attrs(&u.attrs),
                            },
                        );
                        proof {
                            assert(evs_view(out@) =~= evs_view(before) + spec_emit(
                                attrs_view(u.attrs@),
                                evs_view(u.data@),
                                tag@,
                            ));
                        }
                    }
                },
                _ => {
                    proof {
                        assert(evs_view(out@) + spec_ser_payload(*p, *v, tag@) =~= evs_view(out@));
                    }
                },
            }
        },
        _ => {
            proof {
                assert(evs_view(out@) + spec_ser_payload(*p, *v, tag@) =~= evs_view(out@));
            }
        },
    }
}

/// Write each value of a list under one payload and tag.
fn ser_payload_many(p: &FieldPayload, items: &Vec<Value>, tag: &Vec<char>, out: &mut Vec<XmlEvent>)
    ensures
        evs_view(final(out)@) == evs_view(old(out)@) + spec_ser_payload_many(*p, items@, tag@),
    decreases *p, 3int, 0int,
{
    let mut i: usize = 0;
    proof {
        assert(spec_ser_payload_many(*p, items@.take(0int), tag@) =~= Seq::<EventV>::empty());
        assert(evs_view(out@) + Seq::<EventV>::empty() =~= evs_view(out@));
    }
    while i < items.len()
        invariant
            i <= items@.len(),
            evs_view(out@) == evs_view(old(out)@) + spec_ser_payload_many(
                *p,
                items@.take(i as int),
                tag@,
            ),
        decreases items@.len() - i,
    {
        proof {
            assert(decreases_to!(*p, 3int, 0int => *p, 2int, 0int));
        }
        ser_payload(p, &items[i], tag, out);
        proof {
            assert(items@.take(i + 1) =~= items@.take(i as int).push(items@[i as int]));
            lemma_ser_many_push(*p, items@.take(i as int), items@[i as int], tag@);
        }
        i += 1;
    }
    proof {
        assert(items@.take(items@.len() as int) =~= items@);
    }
}

/// Write the inner content of a record element.
fn struct_content(c: &Container, fields: &Vec<Value>, out: &mut Vec<XmlEvent>)
    ensures
        evs_view(final(out)@) == evs_view(old(out)@) + spec_struct_content(*c, fields@),
    decreases *c, 2int, 0int,
{
    match text_field_index(c) {
        Some(i) => {
            let ghost before = out@;
            let f = &c.struct_fields[i];
            if i < fields.len() {
                match &f.payload {
                    FieldPayload::Scalar(kind) => {
                        if matches!(f.generic, Arity::Optional | Arity::Boxed) {
                            match &fields[i] {
                                Value::Opt(Some(b)) => {
                                    out.push(XmlEvent::Text { content: render_scalar(kind, &**b) });
                                    proof {
                                        assert(evs_view(out@) =~= evs_view(before)
                                            + spec_struct_content(*c, fields@));
                                    }
                                },
                                _ => {
                                    proof {
                                        assert(evs_view(out@) =~= evs_view(before)
                                            + spec_struct_content(*c, fields@));
                                    }
                                },
                            }
                        } else {
                            out.push(XmlEvent::Text { content: render_scalar(kind, &fields[i]) });
                            proof {
                                assert(evs_view(out@) =~= evs_view(before) + spec_struct_content(
                                    *c,
                                    fields@,
                                ));
                            }
                        }
                    },
                    _ => {
                        proof {
                            assert(evs_view(out@) =~= evs_view(before) + spec_struct_content(
                                *c,
                                fields@,
                            ));
                        }
                    },
                }
            } else {
                proof {
                    assert(evs_view(out@) =~= evs_view(before) + spec_struct_content(*c, fields@));
                }
            }
        },
        None => {
            let ghost base = out@;
            // self-closing markers first
            let mut i: usize = 0;
            proof {
                assert(evs_view(out@) + spec_sfc_events(*c, fields@, 0) =~= evs_view(base)
                    + spec_sfc_events(*c, fields@, 0));
            }
            while i < c.struct_fields.len()
                invariant
                    i <= c.struct_fields@.len(),
                    evs_view(out@) + spec_sfc_events(*c, fields@, i as int) == evs_view(base)
                        + spec_sfc_events(*c, fields@, 0),
                decreases c.struct_fields@.len() - i,
            {
                let ghost before = out@;
                let f = &c.struct_fields[i];
                if matches!(f.ty, EleType::SelfClosedChild) && i < fields.len() && matches!(
                    &fields[i],
                    Value::Bool(true),
                ) {
                    let name = match c.get_field_name(f) {
                        Some(n) => n,
                        None => Vec::new(),
                    };
                    proof {
                        assert(name@ == ser_name(*c, *f));
                    }
                    out.push(XmlEvent::Empty { name, attrs: Vec::new() });
                    proof {
                        assert(attrs_view(Seq::<Attr>::empty()) =~= Seq::<AttrV>::empty());
                        assert(evs_view(out@) =~= evs_view(before) + seq![
                            EventV::Empty { name: ser_name(*c, *f), attrs: Seq::empty() },
                        ]);
                    }
                } else {
                    proof {
                        assert(evs_view(out@) + Seq::<EventV>::empty() =~= evs_view(out@));
                    }
                }
                proof {
                    assert(spec_sfc_events(*c, fields@, i as int) == (if c.struct_fields@[
                        i as int].ty is SelfClosedChild && i < fields@.len() && fields@[i as int]
                        == Value::Bool(true) {
                        seq![
                            EventV::Empty {
                                name: ser_name(*c, c.struct_fields@[i as int]),
                                attrs: Seq::empty(),
                            },
                        ]
                    } else {
                        Seq::<EventV>::empty()
                    }) + spec_sfc_events(*c, fields@, i + 1));
                    assert(evs_view(out@) + spec_sfc_events(*c, fields@, i + 1) =~= evs_view(before)
                        + spec_sfc_events(*c, fields@, i as int));
                }
                i += 1;
            }
            proof {
                assert(spec_sfc_events(*c, fields@, c.struct_fields@.len() as int)
                    =~= Seq::<EventV>::empty());
                assert(evs_view(out@) + Seq::<EventV>::empty() =~= evs_view(out@));
            }
            // children next
            let ghost after_sfc = out@;
            let mut i: usize = 0;
            while i < c.struct_fields.len()
                invariant
                    i <= c.struct_fields@.len(),
                    evs_view(out@) + spec_child_events(*c, fields@, i as int) == evs_view(after_sfc)
                        + spec_child_events(*c, fields@, 0),
                decreases c.struct_fields@.len() - i,
            {
                let ghost before = out@;
                let ghost head = (if c.struct_fields@[i as int].ty is Child && !c.struct_fields@[
                    i as int].skip_serializing && i < fields@.len() {
                    match c.struct_fields@[i as int].generic {
                        Arity::List => match fields@[i as int] {
                            Value::List(items) => spec_ser_payload_many(
                                c.struct_fields@[i as int].payload,
                                items@,
                                ser_name(*c, c.struct_fields@[i as int]),
                            ),
                            _ => Seq::<EventV>::empty(),
                        },
                        Arity::Optional => match fields@[i as int] {
                            Value::Opt(Some(b)) => spec_ser_payload(
                                c.struct_fields@[i as int].payload,
                                *b,
                                ser_name(*c, c.struct_fields@[i as int]),
                            ),
                            _ => Seq::<EventV>::empty(),
                        },
                        _ => spec_ser_payload(
                            c.struct_fields@[i as int].payload,
                            fields@[i as int],
                            ser_name(*c, c.struct_fields@[i as int]),
                        ),
                    }
                } else {
                    Seq::<EventV>::empty()
                });
                proof {
                    assert(spec_child_events(*c, fields@, i as int) == head + spec_child_events(
                        *c,
                        fields@,
                        i + 1,
                    ));
                }
                let f = &c.struct_fields[i];
                if matches!(f.ty, EleType::Child) && !f.skip_serializing && i < fields.len() {
                    let name = match c.get_field_name(f) {
                        Some(n) => n,
                        None => Vec::new(),
                    };
                    proof {
                        assert(name@ == ser_name(*c, *f));
                    }
                    match &f.generic {
                        Arity::List => {
                            match &fields[i] {
                                Value::List(items) => {
                                    ser_payload_many(&f.payload, items, &name, out);
                                },
                                _ => {},
                            }
                        },
                        Arity::Optional => {
                            match &fields[i] {
                                Value::Opt(Some(b)) => {
                                    ser_payload(&f.payload, &**b, &name, out);
                                },
                                _ => {},
                            }
                        },
                        _ => {
                            ser_payload(&f.payload, &fields[i], &name, out);
                        },
                    }
                }
                proof {
                    assert(evs_view(out@) =~= evs_view(before) + head);
                    assert((evs_view(before) + head) + spec_child_events(*c, fields@, i + 1)
                        =~= evs_view(before) + spec_child_events(*c, fields@, i as int));
                }
                i += 1;
            }
            proof {
                assert(spec_child_events(*c, fields@, c.struct_fields@.len() as int)
                    =~= Seq::<EventV>::empty());
                assert(evs_view(out@) + Seq::<EventV>::empty() =~= evs_view(out@));
            }
            // untagged children last
            let ghost after_children = out@;
            let empty_tag: Vec<char> = Vec::new();
            let mut i: usize = 0;
            while i < c.struct_fields.len()
                invariant
                    i <= c.struct_fields@.len(),
                    empty_tag@ == Seq::<char>::empty(),
                    evs_view(out@) + spec_untag_events(*c, fields@, i as int) == evs_view(
                        after_children,
                    ) + spec_untag_events(*c, fields@, 0),
                decreases c.struct_fields@.len() - i,
            {
                let ghost before = out@;
                let ghost head = (if (c.struct_fields@[i as int].ty is Untag || c.struct_fields@[
                    i as int].ty is UntaggedEnum || c.struct_fields@[i as int].ty
                    is UntaggedStruct) && i < fields@.len() {
                    match c.struct_fields@[i as int].generic {
                        Arity::List => match fields@[i as int] {
                            Value::List(items) => spec_ser_payload_many(
                                c.struct_fields@[i as int].payload,
                                items@,
                                Seq::empty(),
                            ),
                            _ => Seq::<EventV>::empty(),
                        },
                        Arity::Optional => match fields@[i as int] {
                            Value::Opt(Some(b)) => spec_ser_payload(
                                c.struct_fields@[i as int].payload,
                                *b,
                                Seq::empty(),
                            ),
                            _ => Seq::<EventV>::empty(),
                        },
                        _ => spec_ser_payload(
                            c.struct_fields@[i as int].payload,
                            fields@[i as int],
                            Seq::empty(),
                        ),
                    }
                } else {
                    Seq::<EventV>::empty()
                });
                proof {
                    assert(spec_untag_events(*c, fields@, i as int) == head + spec_untag_events(
                        *c,
                        fields@,
                        i + 1,
                    ));
                }
                let f = &c.struct_fields[i];
                if matches!(f.ty, EleType::Untag | EleType::UntaggedEnum | EleType::UntaggedStruct)
                    && i < fields.len() {
                    match &f.generic {
                        Arity::List => {
                            match &fields[i] {
                                Value::List(items) => {
                                    ser_payload_many(&f.payload, items, &empty_tag, out);
                                },
                                _ => {},
                            }
                        },
                        Arity::Optional => {
                            match &fields[i] {
                                Value::Opt(Some(b)) => {
                                    ser_payload(&f.payload, &**b, &empty_tag, out);
                                },
                                _ => {},
                            }
                        },
                        _ => {
                            ser_payload(&f.payload, &fields[i], &empty_tag, out);
                        },
                    }
                }
                proof {
                    assert(evs_view(out@) =~= evs_view(before) + head);
                    assert((evs_view(before) + head) + spec_untag_events(*c, fields@, i + 1)
                        =~= evs_view(before) + spec_untag_events(*c, fields@, i as int));
                }
                i += 1;
            }
            proof {
                assert(spec_untag_events(*c, fields@, c.struct_fields@.len() as int)
                    =~= Seq::<EventV>::empty());
                assert(evs_view(out@) =~= evs_view(base) + spec_struct_content(*c, fields@));
            }
        },
    }
}

/// Write a sum value under a tag.
fn ser_enum(c: &Container, v: &Value, tag: &Vec<char>, out: &mut Vec<XmlEvent>)
    ensures
        evs_view(final(out)@) == evs_view(old(out)@) + spec_ser_enum(*c, *v, tag@),
    decreases *c, 2int, 0int,
{
    let ghost before = out@;
    match v {
        Value::Variant(idx, payload) => {
            if *idx < c.enum_variants.len() {
                let var = &c.enum_variants[*idx];
                let vname: Vec<char> = match &var.name {
                    Some(n) => clone_chars(n),
                    None => Vec::new(),
                };
                if matches!(var.ele_type, EleType::Text) {
                    match (&var.payload, payload) {
                        (Some(FieldPayload::Scalar(kind)), Some(b)) => {
                            out.push(XmlEvent::Text { content: render_scalar(kind, &**b) });
                            proof {
                                assert(evs_view(out@) =~= evs_view(before) + spec_ser_enum(
                                    *c,
                                    *v,
                                    tag@,
                                ));
                            }
                        },
                        _ => {
                            proof {
                                assert(evs_view(out@) + spec_ser_enum(*c, *v, tag@) =~= evs_view(
                                    out@,
                                ));
                            }
                        },
                    }
                } else {
                    match (&var.payload, payload) {
                        (Some(p), Some(b)) => {
                            if tag.len() == 0 {
                                ser_payload(p, &**b, &vname, out);
                            } else {
                                out.push(
                                    XmlEvent::Start { name: clone_chars(tag), attrs: Vec::new() },
                                );
                                let ghost mid1 = out@;
                                proof {
                                    assert(attrs_view(Seq::<Attr>::empty())
                                        =~= Seq::<AttrV>::empty());
                                    crate::events::lemma_evs_view_push(before, mid1.last());
                                    assert(evs_view(mid1) == evs_view(before).push(
                                        EventV::Start { name: tag@, attrs: Seq::empty() },
                                    ));
                                }
                                ser_payload(p, &**b, &vname, out);
                                let ghost mid2 = out@;
                                out.push(XmlEvent::End { name: clone_chars(tag) });
                                proof {
                                    crate::events::lemma_evs_view_push(mid2, out@.last());
                                    assert(evs_view(out@) == evs_view(mid2).push(
                                        EventV::End { name: tag@ },
                                    ));
                                    assert(spec_ser_enum(*c, *v, tag@) == seq![
                                        EventV::Start { name: tag@, attrs: Seq::empty() },
                                    ] + spec_ser_payload(*p, **b, vname@) + seq![
                                        EventV::End { name: tag@ },
                                    ]);
                                    assert(evs_view(out@) =~= evs_view(before) + spec_ser_enum(
                                        *c,
                                        *v,
                                        tag@,
                                    ));
                                }
                            }
                        },
                        (Some(p), None) => {
                            ser_enum_unit(c, &vname, tag, out);
                            proof {
                                assert(evs_view(out@) =~= evs_view(before) + spec_ser_enum(
                                    *c,
                                    *v,
                                    tag@,
                                ));
                            }
                        },
                        (None, _) => {
                            ser_enum_unit(c, &vname, tag, out);
                            proof {
                                assert(evs_view(out@) =~= evs_view(before) + spec_ser_enum(
                                    *c,
                                    *v,
                                    tag@,
                                ));
                            }
                        },
                    }
                }
            } else {
                proof {
                    assert(evs_view(out@) + spec_ser_enum(*c, *v, tag@) =~= evs_view(out@));
                }
            }
        },
        _ => {
            proof {
                assert(evs_view(out@) + spec_ser_enum(*c, *v, tag@) =~= evs_view(out@));
            }
        },
    }
}

/// Write a unit variant: its own empty element, wrapped when tagged.
fn ser_enum_unit(c: &Container, vname: &Vec<char>, tag: &Vec<char>, out: &mut Vec<XmlEvent>)
    ensures
        evs_view(final(out)@) == evs_view(old(out)@) + (if tag@.len() == 0 {
            seq![EventV::Empty { name: vname@, attrs: Seq::empty() }]
        } else {
            seq![
                EventV::Start { name: tag@, attrs: Seq::empty() },
                EventV::Empty { name: vname@, attrs: Seq::empty() },
                EventV::End { name: tag@ },
            ]
        }),
{
    let ghost before = out@;
    if tag.len() == 0 {
        out.push(XmlEvent::Empty { name: clone_chars(vname), attrs: Vec::new() });
        proof {
            assert(attrs_view(Seq::<Attr>::empty()) =~= Seq::<AttrV>::empty());
            assert(evs_view(out@) =~= evs_view(before) + seq![
                EventV::Empty { name: vname@, attrs: Seq::empty() },
            ]);
        }
    } else {
        out.push(XmlEvent::Start { name: clone_chars(tag), attrs: Vec::new() });
        out.push(XmlEvent::Empty { name: clone_chars(vname), attrs: Vec::new() });
        out.push(XmlEvent::End { name: clone_chars(tag) });
        proof {
            assert(attrs_view(Seq::<Attr>::empty()) =~= Seq::<AttrV>::empty());
            assert(evs_view(out@) =~= evs_view(before) + seq![
                EventV::Start { name: tag@, attrs: Seq::empty() },
                EventV::Empty { name: vname@, attrs: Seq::empty() },
                EventV::End { name: tag@ },
            ]);
        }
    }
}

/// Write a value under its schema and a tag, appending its events.
pub fn serialize(c: &Container, v: &Value, tag: &Vec<char>, out: &mut Vec<XmlEvent>)
    ensures
        evs_view(final(out)@) == evs_view(old(out)@) + spec_ser(*c, *v, tag@),
    decreases *c, 4int, 0int,
{
    let ghost before = out@;
    if c.enum_variants.len() > 0 {
        ser_enum(c, v, tag, out);
    } else {
        match v {
            Value::Record(fields) => {
                let attrs = build_attrs(c, fields);
                if tag.len() == 0 {
                    struct_content(c, fields, out);
                } else if !has_content(c, fields) && !has_untag(c) {
                    out.push(XmlEvent::Empty { name: clone_chars(tag), attrs });
                    proof {
                        assert(evs_view(out@) =~= evs_view(before) + spec_ser(*c, *v, tag@));
                    }
                } else {
                    let ghost attrs_v = attrs_view(attrs@);
                    out.push(XmlEvent::Start { name: clone_chars(tag), attrs });
                    let ghost mid1 = out@;
                    proof {
                        crate::events::lemma_evs_view_push(before, mid1.last());
                        assert(evs_view(mid1) == evs_view(before).push(
                            EventV::Start { name: tag@, attrs: attrs_v },
                        ));
                    }
                    struct_content(c, fields, out);
                    let ghost mid2 = out@;
                    out.push(XmlEvent::End { name: clone_chars(tag) });
                    proof {
                        crate::events::lemma_evs_view_push(mid2, out@.last());
                        assert(evs_view(out@) == evs_view(mid2).push(EventV::End { name: tag@ }));
                        assert(spec_ser(*c, *v, tag@) == seq![
                            EventV::Start { name: tag@, attrs: attrs_v },
                        ] + spec_struct_content(*c, fields@) + seq![EventV::End { name: tag@ }]);
                        assert(evs_view(out@) =~= evs_view(before) + spec_ser(*c, *v, tag@));
                    }
                }
            },
            _ => {
                proof {
                    assert(evs_view(out@) + spec_ser(*c, *v, tag@) =~= evs_view(out@));
                }
            },
        }
    }
}

} // verus!
