//! The laws of the engine: statements that relate serialization,
//! deserialization and the opaque capture, proved over the same
//! specification functions the engines' contracts use.
use crate::chars::{ci_eq, fold_code};
use crate::de::{
    spec_cap_events, spec_capture, ErrV,
};
use crate::events::{AttrV, EventV};
use crate::schema::{spec_root_names, Container, FieldPayload, ScalarKind};
use crate::ser::{spec_attr_head, spec_emit, ser_name};
use crate::value::{value_view, Value};
use vstd::prelude::*;

verus! {

/// A balanced event sequence at a nesting depth: every end event closes
/// an element opened within the sequence, and every opened element is
/// closed by its end.
pub open spec fn balanced_at(evs: Seq<EventV>, depth: int) -> bool
    decreases evs.len(),
{
    if evs.len() == 0 {
        depth == 0
    } else {
        match evs[0] {
            EventV::End { name } => depth >= 1 && balanced_at(evs.drop_first(), depth - 1),
            EventV::Start { name, attrs } => balanced_at(evs.drop_first(), depth + 1),
            _ => balanced_at(evs.drop_first(), depth),
        }
    }
}

/// A well-formed subtree content: balanced from the outside.
pub open spec fn balanced(evs: Seq<EventV>) -> bool {
    balanced_at(evs, 0)
}

/// Capturing a balanced region runs through it untouched and stops at
/// the end event that follows it.
proof fn lemma_cap_balanced(
    tag: Seq<char>,
    events: Seq<EventV>,
    pos: int,
    depth: int,
    d: Seq<EventV>,
)
    requires
        0 <= pos,
        pos + d.len() < events.len(),
        d =~= events.subrange(pos, pos + d.len()),
        events[pos + d.len()] == (EventV::End { name: tag }),
        balanced_at(d, depth),
        depth >= 0,
    ensures
        spec_cap_events(tag, events, pos, depth) == (d, pos + d.len() + 1),
    decreases d.len(),
{
    if d.len() == 0 {
        assert(events[pos] == (EventV::End { name: tag }));
        assert(spec_cap_events(tag, events, pos, depth) == (
            Seq::<EventV>::empty(),
            pos + 1,
        ));
        assert(d =~= Seq::<EventV>::empty());
    } else {
        assert(events[pos] == d[0]);
        match d[0] {
            EventV::End { name } => {
                assert(depth >= 1);
                lemma_cap_balanced(tag, events, pos + 1, depth - 1, d.drop_first());
                assert(seq![events[pos]] + d.drop_first() =~= d);
            },
            EventV::Start { name, attrs } => {
                lemma_cap_balanced(tag, events, pos + 1, depth + 1, d.drop_first());
                assert(seq![events[pos]] + d.drop_first() =~= d);
            },
            _ => {
                lemma_cap_balanced(tag, events, pos + 1, depth, d.drop_first());
                assert(seq![events[pos]] + d.drop_first() =~= d);
            },
        }
    }
}

/// Idempotence of the opaque capture: replaying a capture writes the
/// very subtree it was taken from, and capturing that subtree gives the
/// capture back. The one subtree this cannot hold of is an element
/// written as a start and end pair with nothing between them, which the
/// replay contracts to its self-closing form; content is required here.
pub proof fn lemma_opaque_round_trip(attrs: Seq<AttrV>, data: Seq<EventV>, tag: Seq<char>)
    requires
        balanced(data),
        data.len() > 0,
    ensures
        spec_capture(tag, attrs, spec_emit(attrs, data, tag), 1, false) == (
            crate::value::UnparsedV { attrs, data },
            spec_emit(attrs, data, tag).len() as int,
        ),
{
    let evs = spec_emit(attrs, data, tag);
    assert(evs =~= seq![EventV::Start { name: tag, attrs }] + data + seq![
        EventV::End { name: tag },
    ]);
    assert(data =~= evs.subrange(1, 1 + data.len() as int));
    assert(evs[1 + data.len() as int] == (EventV::End { name: tag }));
    lemma_cap_balanced(tag, evs, 1, 0, data);
    assert(1 + data.len() + 1 == evs.len());
}

/// A self-closing capture replays as the self-closing element it came
/// from, and capturing that gives it back.
pub proof fn lemma_opaque_round_trip_empty(attrs: Seq<AttrV>, tag: Seq<char>)
    ensures
        spec_emit(attrs, Seq::empty(), tag) == seq![EventV::Empty { name: tag, attrs }],
        spec_capture(tag, attrs, Seq::empty(), 0, true) == (
            crate::value::UnparsedV { attrs, data: Seq::empty() },
            0int,
        ),
{
}

/// Default elision for attributes: an attribute field with a default
/// writes nothing exactly when its value equals the default, and writes
/// the rendered value under its resolved name otherwise.
pub proof fn lemma_default_elision(c: Container, fields: Seq<Value>, i: int, d: Value)
    requires
        0 <= i < c.struct_fields@.len(),
        i < fields.len(),
        c.struct_fields@[i].ty is Attr,
        c.struct_fields@[i].payload is Scalar,
        c.struct_fields@[i].generic is Scalar,
        c.struct_fields@[i].default == Some(d),
    ensures
        value_view(fields[i]) == value_view(d) ==> spec_attr_head(c, fields, i)
            == Seq::<AttrV>::empty(),
        value_view(fields[i]) != value_view(d) ==> spec_attr_head(c, fields, i) == seq![
            AttrV {
                name: ser_name(c, c.struct_fields@[i]),
                value: crate::ser::spec_render(
                    c.struct_fields@[i].payload->Scalar_0,
                    fields[i],
                ),
            },
        ],
{
}

/// An attribute field with no default always writes its value.
pub proof fn lemma_attr_always_written(c: Container, fields: Seq<Value>, i: int)
    requires
        0 <= i < c.struct_fields@.len(),
        i < fields.len(),
        c.struct_fields@[i].ty is Attr,
        c.struct_fields@[i].payload is Scalar,
        c.struct_fields@[i].generic is Scalar,
        c.struct_fields@[i].default is None,
    ensures
        spec_attr_head(c, fields, i) == seq![
            AttrV {
                name: ser_name(c, c.struct_fields@[i]),
                value: crate::ser::spec_render(
                    c.struct_fields@[i].payload->Scalar_0,
                    fields[i],
                ),
            },
        ],
{
}

/// A record whose children, markers and text all sit at their defaults,
/// and which has no untagged fields, is written as one self-closing
/// element.
pub proof fn lemma_empty_element(c: Container, fields: Seq<Value>, tag: Seq<char>)
    requires
        tag.len() > 0,
        !crate::ser::spec_has_content(c, fields),
        !crate::ser::spec_has_untag(c),
    ensures
        crate::ser::spec_ser_struct(c, fields, tag) == seq![
            EventV::Empty {
                name: tag,
                attrs: crate::ser::spec_ns_attrs(c) + crate::ser::spec_field_attrs(c, fields, 0),
            },
        ],
{
}

/// Case-folded names are interchangeable: two names equal up to ASCII
/// case address exactly the same things.
pub proof fn lemma_ci_interchangeable(n1: Seq<char>, n2: Seq<char>, m: Seq<char>)
    requires
        ci_eq(n1, n2),
    ensures
        ci_eq(n1, m) == ci_eq(n2, m),
{
    if ci_eq(n1, m) {
        assert(forall|i: int| 0 <= i < n2.len() ==> fold_code(n2[i]) == fold_code(m[i]));
    }
    if ci_eq(n2, m) {
        assert(forall|i: int| 0 <= i < n1.len() ==> fold_code(n1[i]) == fold_code(m[i]));
    }
}

/// Attribute-field lookup sees names only through their case-folded
/// form: names equal up to ASCII case find the same field.
pub proof fn lemma_find_attr_ci(c: Container, n1: Seq<char>, n2: Seq<char>, i: int)
    requires
        ci_eq(n1, n2),
    ensures
        crate::de::spec_find_attr(c, n1, i) == crate::de::spec_find_attr(c, n2, i),
    decreases c.struct_fields@.len() - i,
{
    if 0 <= i < c.struct_fields@.len() {
        let f = c.struct_fields@[i];
        lemma_attr_matches_ci(c, f, n1, n2);
        lemma_find_attr_ci(c, n1, n2, i + 1);
    }
}

/// A field answers to a name only through its case-folded form.
pub proof fn lemma_attr_matches_ci(
    c: Container,
    f: crate::schema::StructField,
    n1: Seq<char>,
    n2: Seq<char>,
)
    requires
        ci_eq(n1, n2),
    ensures
        crate::schema::attr_name_matches(c, f, n1) == crate::schema::attr_name_matches(c, f, n2),
{
    match crate::schema::spec_field_name(c, f) {
        Some(fname) => {
            lemma_ci_interchangeable(n1, n2, fname);
        },
        None => {},
    }
    let aliases = crate::schema::spec_alias_names(f);
    assert forall|i: int| 0 <= i < aliases.len() implies ci_eq(n1, aliases[i]) == ci_eq(
        n2,
        aliases[i],
    ) by {
        lemma_ci_interchangeable(n1, n2, aliases[i]);
    }
}

/// Case-insensitivity of the attribute pass: attribute lists that differ
/// only in the ASCII letter case of their names produce the same field
/// values; when both fail, they fail the same way, up to the name an
/// unknown-field error reports.
pub proof fn lemma_attr_pass_ci(
    c: Container,
    st: Seq<crate::de::FieldAccV>,
    a1: Seq<AttrV>,
    a2: Seq<AttrV>,
    k: int,
)
    requires
        attrs_ci_eq(a1, a2),
    ensures
        (match (
            crate::de::spec_attr_pass(c, st, a1, k),
            crate::de::spec_attr_pass(c, st, a2, k),
        ) {
            (Ok(s1), Ok(s2)) => s1 == s2,
            (Err(e1), Err(e2)) => err_kind_eq(e1, e2),
            _ => false,
        }),
    decreases a1.len() - k,
{
    if 0 <= k < a1.len() {
        lemma_find_attr_ci(c, a1[k].name, a2[k].name, 0);
        match crate::de::spec_apply_attr(c, st, a1[k]) {
            Ok(st2) => {
                lemma_attr_pass_ci(c, st2, a1, a2, k + 1);
            },
            Err(e) => {},
        }
    }
}

/// Two attribute lists that differ only in the ASCII letter case of
/// their names.
pub open spec fn attrs_ci_eq(a1: Seq<AttrV>, a2: Seq<AttrV>) -> bool {
    a1.len() == a2.len() && (forall|j: int|
        0 <= j < a1.len() ==> ci_eq(#[trigger] a1[j].name, a2[j].name) && a1[j].value
            == a2[j].value)
}

/// Equality of errors up to the offending name they report.
pub open spec fn err_kind_eq(e1: ErrV, e2: ErrV) -> bool {
    match (e1, e2) {
        (ErrV::UnknownField(_), ErrV::UnknownField(_)) => true,
        _ => e1 == e2,
    }
}

/// No schema in the tree rejects unknown fields.
pub open spec fn no_deny(c: Container) -> bool
    decreases c, 1int, 0int,
{
    &&& !c.deny_unknown
    &&& no_deny_fields(c, 0)
    &&& no_deny_variants(c, 0)
}

pub open spec fn no_deny_fields(c: Container, i: int) -> bool
    decreases c, 0int, c.struct_fields@.len() - i,
{
    if i < 0 || i >= c.struct_fields@.len() {
        true
    } else {
        payload_no_deny(c.struct_fields@[i].payload) && no_deny_fields(c, i + 1)
    }
}

pub open spec fn no_deny_variants(c: Container, i: int) -> bool
    decreases c, 0int, c.enum_variants@.len() - i,
{
    if i < 0 || i >= c.enum_variants@.len() {
        true
    } else {
        (match c.enum_variants@[i].payload {
            Some(p) => payload_no_deny(p),
            None => true,
        }) && no_deny_variants(c, i + 1)
    }
}

pub open spec fn payload_no_deny(p: FieldPayload) -> bool
    decreases p, 2int, 0int,
{
    match p {
        FieldPayload::Nested(b) => no_deny(*b),
        _ => true,
    }
}

/// Whether a result avoids the unknown-field error.
pub open spec fn not_unknown<T>(r: Result<T, ErrV>) -> bool {
    match r {
        Err(ErrV::UnknownField(_)) => false,
        _ => true,
    }
}

proof fn lemma_no_deny_field(c: Container, i: int)
    requires
        no_deny(c),
        0 <= i < c.struct_fields@.len(),
    ensures
        payload_no_deny(c.struct_fields@[i].payload),
    decreases i,
{
    lemma_no_deny_fields_from(c, 0, i);
}

proof fn lemma_no_deny_fields_from(c: Container, j: int, i: int)
    requires
        no_deny_fields(c, j),
        0 <= j <= i < c.struct_fields@.len(),
    ensures
        payload_no_deny(c.struct_fields@[i].payload),
    decreases i - j,
{
    if j < i {
        lemma_no_deny_fields_from(c, j + 1, i);
    }
}

proof fn lemma_no_deny_variant(c: Container, i: int)
    requires
        no_deny(c),
        0 <= i < c.enum_variants@.len(),
    ensures
        (match c.enum_variants@[i].payload {
            Some(p) => payload_no_deny(p),
            None => true,
        }),
{
    lemma_no_deny_variants_from(c, 0, i);
}

proof fn lemma_no_deny_variants_from(c: Container, j: int, i: int)
    requires
        no_deny_variants(c, j),
        0 <= j <= i < c.enum_variants@.len(),
    ensures
        (match c.enum_variants@[i].payload {
            Some(p) => payload_no_deny(p),
            None => true,
        }),
    decreases i - j,
{
    if j < i {
        lemma_no_deny_variants_from(c, j + 1, i);
    }
}

proof fn lemma_nd_attr_pass(
    c: Container,
    st: Seq<crate::de::FieldAccV>,
    attrs: Seq<AttrV>,
    k: int,
)
    requires
        !c.deny_unknown,
    ensures
        not_unknown(crate::de::spec_attr_pass(c, st, attrs, k)),
    decreases attrs.len() - k,
{
    if 0 <= k < attrs.len() {
        match crate::de::spec_apply_attr(c, st, attrs[k]) {
            Ok(st2) => {
                lemma_nd_attr_pass(c, st2, attrs, k + 1);
            },
            Err(e) => {},
        }
    }
}

proof fn lemma_nd_text_untags(
    c: Container,
    st: Seq<crate::de::FieldAccV>,
    content: Seq<char>,
    i: int,
)
    ensures
        not_unknown(crate::de::spec_text_untags(c, st, content, i)),
    decreases c.struct_fields@.len() - i,
{
    if 0 <= i < c.struct_fields@.len() {
        let f = c.struct_fields@[i];
        if f.ty is Untag || f.ty is UntaggedEnum {
            match f.payload {
                FieldPayload::Nested(b) => {
                    match crate::de::spec_text_variant(*b, 0) {
                        Some(tv) => {
                            match b.enum_variants@[tv].payload {
                                Some(FieldPayload::Scalar(kind)) => {
                                    match crate::de::spec_parse_scalar(kind, content) {
                                        Some(v) => {
                                            lemma_nd_text_untags(
                                                c,
                                                crate::de::spec_assign(
                                                    st,
                                                    i,
                                                    f.generic,
                                                    crate::value::ValueV::Variant(
                                                        tv as nat,
                                                        Some(Box::new(v)),
                                                    ),
                                                ),
                                                content,
                                                i + 1,
                                            );
                                        },
                                        None => {},
                                    }
                                },
                                _ => {
                                    lemma_nd_text_untags(c, st, content, i + 1);
                                },
                            }
                        },
                        None => {
                            lemma_nd_text_untags(c, st, content, i + 1);
                        },
                    }
                },
                _ => {
                    lemma_nd_text_untags(c, st, content, i + 1);
                },
            }
        } else {
            lemma_nd_text_untags(c, st, content, i + 1);
        }
    }
}

proof fn lemma_nd_finalize(c: Container, st: Seq<crate::de::FieldAccV>, i: int)
    ensures
        not_unknown(crate::de::spec_finalize(c, st, i)),
    decreases c.struct_fields@.len() - i,
{
    if 0 <= i < c.struct_fields@.len() {
        lemma_nd_finalize(c, st, i + 1);
    }
}

proof fn lemma_nd_element(
    p: FieldPayload,
    tag: Seq<char>,
    attrs: Seq<AttrV>,
    events: Seq<EventV>,
    pos: int,
    is_empty: bool,
)
    requires
        payload_no_deny(p),
    ensures
        not_unknown(crate::de::spec_de_element(p, tag, attrs, events, pos, is_empty)),
    decreases p, 8int, 0int, 0int,
{
    match p {
        FieldPayload::Nested(b) => {
            lemma_nd_de(*b, tag, attrs, events, pos, is_empty);
        },
        _ => {},
    }
}

proof fn lemma_nd_content(
    c: Container,
    st: Seq<crate::de::FieldAccV>,
    tag: Seq<char>,
    events: Seq<EventV>,
    pos: int,
)
    requires
        no_deny(c),
    ensures
        not_unknown(crate::de::spec_de_content(c, st, tag, events, pos)),
    decreases c, 5int, events.len() - pos, 1int,
{
    if 0 <= pos < events.len() {
        match events[pos] {
            EventV::End { name } => {
                if name != tag {
                    lemma_nd_content(c, st, tag, events, pos + 1);
                }
            },
            EventV::Start { name, attrs } => {
                lemma_nd_child(c, st, tag, events, pos, name, attrs, false);
            },
            EventV::Empty { name, attrs } => {
                match crate::de::spec_find_sfc(c, name, 0) {
                    Some(i) => {
                        lemma_nd_content(
                            c,
                            st.update(i, crate::de::FieldAccV::Val(crate::value::ValueV::Bool(true))),
                            tag,
                            events,
                            pos + 1,
                        );
                    },
                    None => {
                        lemma_nd_child(c, st, tag, events, pos, name, attrs, true);
                    },
                }
            },
            EventV::Text { content } => {
                match crate::ser::spec_text_field(c, 0) {
                    Some(i) => {
                        let f = c.struct_fields@[i];
                        match f.payload {
                            FieldPayload::Scalar(kind) => {
                                match crate::de::spec_parse_scalar(kind, content) {
                                    Some(v) => {
                                        lemma_nd_content(
                                            c,
                                            crate::de::spec_assign(
                                                st,
                                                i,
                                                crate::de::text_arity(f.generic),
                                                v,
                                            ),
                                            tag,
                                            events,
                                            pos + 1,
                                        );
                                    },
                                    None => {},
                                }
                            },
                            _ => {
                                lemma_nd_content(c, st, tag, events, pos + 1);
                            },
                        }
                    },
                    None => {
                        if !crate::chars::ws_only(content) {
                            lemma_nd_text_untags(c, st, content, 0);
                            match crate::de::spec_text_untags(c, st, content, 0) {
                                Ok(st2) => {
                                    lemma_nd_content(c, st2, tag, events, pos + 1);
                                },
                                Err(_) => {},
                            }
                        } else {
                            lemma_nd_content(c, st, tag, events, pos + 1);
                        }
                    },
                }
            },
        }
    }
}

proof fn lemma_nd_child(
    c: Container,
    st: Seq<crate::de::FieldAccV>,
    tag: Seq<char>,
    events: Seq<EventV>,
    pos: int,
    name: Seq<char>,
    attrs: Seq<AttrV>,
    is_empty: bool,
)
    requires
        no_deny(c),
        0 <= pos < events.len(),
    ensures
        not_unknown(crate::de::spec_de_child(c, st, tag, events, pos, name, attrs, is_empty)),
    decreases c, 5int, events.len() - pos, 0int,
{
    crate::de::lemma_find_child_bounds(c, name, 0);
    crate::de::lemma_find_untag_bounds(c, name, 0);
    match crate::de::spec_find_child(c, name, 0) {
        Some(i) => {
            let f = c.struct_fields@[i];
            lemma_no_deny_field(c, i);
            lemma_nd_element(f.payload, name, attrs, events, pos + 1, is_empty);
            match crate::de::spec_de_element(f.payload, name, attrs, events, pos + 1, is_empty) {
                Ok((v, p2)) => {
                    lemma_nd_content(
                        c,
                        crate::de::spec_assign(st, i, f.generic, v),
                        tag,
                        events,
                        crate::de::clamp_pos(p2, pos + 1, events.len() as int),
                    );
                },
                Err(_) => {},
            }
        },
        None => {
            match crate::de::spec_find_untag(c, name, 0) {
                Some(i) => {
                    let f = c.struct_fields@[i];
                    lemma_no_deny_field(c, i);
                    lemma_nd_element(f.payload, name, attrs, events, pos + 1, is_empty);
                    match crate::de::spec_de_element(
                        f.payload,
                        name,
                        attrs,
                        events,
                        pos + 1,
                        is_empty,
                    ) {
                        Ok((v, p2)) => {
                            lemma_nd_content(
                                c,
                                crate::de::spec_assign(st, i, f.generic, v),
                                tag,
                                events,
                                crate::de::clamp_pos(p2, pos + 1, events.len() as int),
                            );
                        },
                        Err(_) => {},
                    }
                },
                None => {
                    match crate::de::spec_find_untag_struct(c, name, 0) {
                        Some(i) => {
                            let (u, p2) = crate::de::spec_capture(
                                name,
                                attrs,
                                events,
                                pos + 1,
                                is_empty,
                            );
                            let caps = match st[i] {
                                crate::de::FieldAccV::Caps(caps) => caps,
                                _ => Seq::empty(),
                            };
                            lemma_nd_content(
                                c,
                                st.update(i, crate::de::FieldAccV::Caps(caps.push((name, u)))),
                                tag,
                                events,
                                crate::de::clamp_pos(p2, pos + 1, events.len() as int),
                            );
                        },
                        None => {
                            lemma_nd_content(c, st, tag, events, pos + 1);
                        },
                    }
                },
            }
        },
    }
}

proof fn lemma_nd_replay_fold(
    b: Container,
    st: Seq<crate::de::FieldAccV>,
    caps: Seq<(Seq<char>, crate::value::UnparsedV)>,
    j: int,
)
    requires
        no_deny(b),
    ensures
        not_unknown(crate::de::spec_replay_fold(b, st, caps, j)),
    decreases b, 6int, caps.len() - j, 0int,
{
    if 0 <= j < caps.len() {
        let (t, u) = caps[j];
        crate::de::lemma_find_child_bounds(b, t, 0);
        match crate::de::spec_find_child(b, t, 0) {
            Some(i) => {
                let f = b.struct_fields@[i];
                lemma_no_deny_field(b, i);
                lemma_nd_element(f.payload, t, u.attrs, u.data, 0, u.data.len() == 0);
                match crate::de::spec_de_element(f.payload, t, u.attrs, u.data, 0, u.data.len()
                    == 0) {
                    Ok((v, _)) => {
                        lemma_nd_replay_fold(b, crate::de::spec_assign(st, i, f.generic, v), caps, j + 1);
                    },
                    Err(_) => {},
                }
            },
            None => {
                lemma_nd_replay_fold(b, st, caps, j + 1);
            },
        }
    }
}

proof fn lemma_nd_replay(b: Container, caps: Seq<(Seq<char>, crate::value::UnparsedV)>)
    requires
        no_deny(b),
    ensures
        not_unknown(crate::de::spec_replay(b, caps)),
    decreases b, 7int, 0int, 0int,
{
    lemma_nd_replay_fold(b, crate::de::spec_init_state(b), caps, 0);
    match crate::de::spec_replay_fold(b, crate::de::spec_init_state(b), caps, 0) {
        Ok(st) => {
            lemma_nd_finalize(b, st, 0);
        },
        Err(_) => {},
    }
}

proof fn lemma_nd_resolve(c: Container, st: Seq<crate::de::FieldAccV>, i: int)
    requires
        no_deny(c),
    ensures
        not_unknown(crate::de::spec_resolve_untagged(c, st, i)),
    decreases c, 8int, c.struct_fields@.len() - i, 0int,
{
    if 0 <= i < c.struct_fields@.len() {
        let f = c.struct_fields@[i];
        if f.ty is UntaggedStruct {
            match (f.payload, st[i]) {
                (FieldPayload::Nested(b), crate::de::FieldAccV::Caps(caps)) => {
                    if caps.len() > 0 {
                        lemma_no_deny_field(c, i);
                        lemma_nd_replay(*b, caps);
                        match crate::de::spec_replay(*b, caps) {
                            Ok(v) => {
                                lemma_nd_resolve(
                                    c,
                                    crate::de::spec_assign(
                                        st,
                                        i,
                                        crate::de::untag_struct_arity(f.generic),
                                        v,
                                    ),
                                    i + 1,
                                );
                            },
                            Err(_) => {},
                        }
                    } else {
                        lemma_nd_resolve(c, st, i + 1);
                    }
                },
                _ => {
                    lemma_nd_resolve(c, st, i + 1);
                },
            }
        } else {
            lemma_nd_resolve(c, st, i + 1);
        }
    }
}

proof fn lemma_nd_enum_build(
    c: Container,
    idx: int,
    attrs: Seq<AttrV>,
    events: Seq<EventV>,
    pos: int,
    is_empty: bool,
)
    requires
        no_deny(c),
    ensures
        not_unknown(crate::de::spec_enum_build(c, idx, attrs, events, pos, is_empty)),
    decreases c, 4int, 0int, 0int,
{
    if 0 <= idx < c.enum_variants@.len() {
        let var = c.enum_variants@[idx];
        match var.payload {
            Some(p) => {
                lemma_no_deny_variant(c, idx);
                let vname: Seq<char> = match var.name {
                    Some(n) => n@,
                    None => Seq::empty(),
                };
                lemma_nd_element(p, vname, attrs, events, pos, is_empty);
            },
            None => {},
        }
    }
}

proof fn lemma_nd_enum_scan(c: Container, tag: Seq<char>, events: Seq<EventV>, pos: int)
    requires
        no_deny(c),
    ensures
        not_unknown(crate::de::spec_enum_scan(c, tag, events, pos)),
    decreases c, 5int, events.len() - pos, 0int,
{
    if 0 <= pos < events.len() {
        match events[pos] {
            EventV::End { name } => {
                if name != tag {
                    lemma_nd_enum_scan(c, tag, events, pos + 1);
                }
            },
            EventV::Start { name, attrs } => {
                match crate::de::spec_enum_match(c, name, 0) {
                    Some(idx) => {
                        lemma_nd_enum_build(c, idx, attrs, events, pos + 1, false);
                    },
                    None => {
                        lemma_nd_enum_scan(c, tag, events, pos + 1);
                    },
                }
            },
            EventV::Empty { name, attrs } => {
                match crate::de::spec_enum_match(c, name, 0) {
                    Some(idx) => {
                        lemma_nd_enum_build(c, idx, attrs, events, pos + 1, true);
                    },
                    None => {
                        lemma_nd_enum_scan(c, tag, events, pos + 1);
                    },
                }
            },
            _ => {
                lemma_nd_enum_scan(c, tag, events, pos + 1);
            },
        }
    }
}

/// The deny-unknown law, read one way: when no schema in the tree sets
/// `deny_unknown`, reading never reports an unknown field, whatever the
/// document holds; with it set, the tests show the error on undeclared
/// attributes and children.
pub proof fn lemma_nd_de(
    c: Container,
    tag: Seq<char>,
    attrs: Seq<AttrV>,
    events: Seq<EventV>,
    pos: int,
    is_empty: bool,
)
    requires
        no_deny(c),
    ensures
        not_unknown(crate::de::spec_de(c, tag, attrs, events, pos, is_empty)),
    decreases c, 9int, 0int, 0int,
{
    if c.enum_variants@.len() > 0 {
        match crate::de::spec_enum_match(c, tag, 0) {
            Some(idx) => {
                lemma_nd_enum_build(c, idx, attrs, events, pos, is_empty);
            },
            None => {
                lemma_nd_enum_scan(c, tag, events, pos);
            },
        }
    } else {
        if !(c.roots@.len() > 0 && !crate::schema::tags_contain_ci(
            crate::schema::spec_root_names(c),
            tag,
        )) {
            lemma_nd_attr_pass(c, crate::de::spec_init_state(c), attrs, 0);
            match crate::de::spec_attr_pass(c, crate::de::spec_init_state(c), attrs, 0) {
                Ok(st1) => {
                    let st2 = crate::de::spec_vec_init(c, st1);
                    if !is_empty {
                        lemma_nd_content(c, st2, tag, events, pos);
                    }
                    let after: Result<(Seq<crate::de::FieldAccV>, int), ErrV> = if is_empty {
                        Ok((st2, pos))
                    } else {
                        crate::de::spec_de_content(c, st2, tag, events, pos)
                    };
                    match after {
                        Ok((st3, _)) => {
                            lemma_nd_resolve(c, st3, 0);
                            match crate::de::spec_resolve_untagged(c, st3, 0) {
                                Ok(st4) => {
                                    lemma_nd_finalize(c, st4, 0);
                                },
                                Err(_) => {},
                            }
                        },
                        Err(_) => {},
                    }
                },
                Err(_) => {},
            }
        }
    }
}

/// A scalar value within its format's range, of a format whose reading
/// inverts its rendering.
pub open spec fn scalar_rt_ok(k: ScalarKind, v: Value) -> bool {
    match (k, v) {
        (ScalarKind::SBool, Value::Bool(_)) => true,
        (ScalarKind::SString, Value::Str(_)) => true,
        (ScalarKind::SDecimal, Value::Decimal(_)) => true,
        (ScalarKind::SU8, Value::UInt(n)) => n <= 255,
        (ScalarKind::SU16, Value::UInt(n)) => n <= 65535,
        (ScalarKind::SU32, Value::UInt(n)) => n <= 4294967295,
        (ScalarKind::SU64, Value::UInt(n)) => true,
        (ScalarKind::SI8, Value::Int(n)) => -128 <= n <= 127,
        (ScalarKind::SI16, Value::Int(n)) => -32768 <= n <= 32767,
        (ScalarKind::SI32, Value::Int(n)) => -2147483648 <= n <= 2147483647,
        (ScalarKind::SI64, Value::Int(n)) => true,
        _ => false,
    }
}

/// Reading a rendered scalar gives the value back.
pub proof fn lemma_scalar_round_trip(k: ScalarKind, v: Value)
    requires
        scalar_rt_ok(k, v),
    ensures
        crate::de::spec_parse_scalar(k, crate::ser::spec_render(k, v)) == Some(value_view(v)),
{
    reveal_strlit("1");
    reveal_strlit("0");
    reveal_strlit("true");
    reveal_strlit("false");
    match (k, v) {
        (ScalarKind::SBool, Value::Bool(b)) => {
            if b {
                assert(ci_eq("1"@, "1"@));
            } else {
                assert(fold_code("0"@[0]) == 48);
                assert(fold_code("1"@[0]) == 49);
                assert(!ci_eq("0"@, "1"@));
                assert(!ci_eq("0"@, "true"@));
                assert(ci_eq("0"@, "0"@));
            }
        },
        (ScalarKind::SU8, Value::UInt(n)) => {
            crate::num::lemma_parse_fmt_u64(n);
        },
        (ScalarKind::SU16, Value::UInt(n)) => {
            crate::num::lemma_parse_fmt_u64(n);
        },
        (ScalarKind::SU32, Value::UInt(n)) => {
            crate::num::lemma_parse_fmt_u64(n);
        },
        (ScalarKind::SU64, Value::UInt(n)) => {
            crate::num::lemma_parse_fmt_u64(n);
        },
        (ScalarKind::SI8, Value::Int(n)) => {
            crate::num::lemma_parse_fmt_i64(n);
        },
        (ScalarKind::SI16, Value::Int(n)) => {
            crate::num::lemma_parse_fmt_i64(n);
        },
        (ScalarKind::SI32, Value::Int(n)) => {
            crate::num::lemma_parse_fmt_i64(n);
        },
        (ScalarKind::SI64, Value::Int(n)) => {
            crate::num::lemma_parse_fmt_i64(n);
        },
        _ => {},
    }
}

/// A record-with-text schema in the round-trip sense: a sequence of
/// scalar attribute fields and exactly one scalar text field, all
/// resolvable, alias-free, under pairwise case-distinct names, with no
/// namespace declarations.
pub open spec fn rt_schema_ok(c: Container) -> bool {
    &&& c.enum_variants@.len() == 0
    &&& c.roots@.len() > 0
    &&& c.with_ns is None
    &&& c.custom_ns@.len() == 0
    &&& crate::ser::spec_text_field(c, 0) is Some
    &&& forall|i: int| 0 <= i < c.struct_fields@.len() ==> rt_field_ok(c, #[trigger] c.struct_fields@[i])
    &&& forall|i: int, j: int|
        0 <= i < j < c.struct_fields@.len() ==> !ci_eq(
            crate::ser::ser_name(c, c.struct_fields@[i]),
            crate::ser::ser_name(c, c.struct_fields@[j]),
        )
}

pub open spec fn rt_field_ok(c: Container, f: crate::schema::StructField) -> bool {
    &&& (f.ty is Attr || f.ty is Text)
    &&& f.generic is Scalar
    &&& f.payload is Scalar
    &&& crate::schema::spec_field_name(c, f) is Some
    &&& f.mapped_names@.len() == 0
}

/// Values that round-trip under the schema: one per field, each within
/// its scalar format, none equal to its field's default.
pub open spec fn rt_values_ok(c: Container, vals: Seq<Value>) -> bool {
    &&& vals.len() == c.struct_fields@.len()
    &&& forall|i: int|
        0 <= i < vals.len() ==> scalar_rt_ok(
            #[trigger] c.struct_fields@[i].payload->Scalar_0,
            vals[i],
        )
    &&& forall|i: int|
        0 <= i < vals.len() ==> (match c.struct_fields@[i].default {
            Some(d) => value_view(#[trigger] vals[i]) != value_view(d),
            None => true,
        })
}

/// Case-insensitive equality is reflexive.
proof fn lemma_ci_refl(s: Seq<char>)
    ensures
        ci_eq(s, s),
{
}

/// An attribute addresses its own field and no earlier one.
proof fn lemma_find_self(c: Container, j: int)
    requires
        rt_schema_ok(c),
        0 <= j < c.struct_fields@.len(),
        c.struct_fields@[j].ty is Attr,
    ensures
        crate::de::spec_find_attr(c, crate::ser::ser_name(c, c.struct_fields@[j]), 0) == Some(j),
{
    let n = crate::ser::ser_name(c, c.struct_fields@[j]);
    lemma_ci_refl(n);
    lemma_find_self_from(c, j, 0);
}

proof fn lemma_find_self_from(c: Container, j: int, i: int)
    requires
        rt_schema_ok(c),
        0 <= i <= j < c.struct_fields@.len(),
        c.struct_fields@[j].ty is Attr,
        ci_eq(crate::ser::ser_name(c, c.struct_fields@[j]), crate::ser::ser_name(c, c.struct_fields@[j])),
    ensures
        crate::de::spec_find_attr(c, crate::ser::ser_name(c, c.struct_fields@[j]), i) == Some(j),
    decreases j - i,
{
    let n = crate::ser::ser_name(c, c.struct_fields@[j]);
    let f = c.struct_fields@[i];
    assert(rt_field_ok(c, f));
    assert(crate::schema::spec_alias_names(f).len() == 0);
    if i == j {
        assert(crate::schema::attr_name_matches(c, f, n));
    } else {
        assert(!ci_eq(crate::ser::ser_name(c, c.struct_fields@[i]), crate::ser::ser_name(c, c.struct_fields@[j])));
        assert(!ci_eq(n, crate::ser::ser_name(c, f))) by {
            lemma_ci_interchangeable(crate::ser::ser_name(c, f), crate::ser::ser_name(c, f), n);
            assert(ci_eq(n, crate::ser::ser_name(c, f)) ==> ci_eq(crate::ser::ser_name(c, f), n));
        }
        assert(!crate::schema::attr_name_matches(c, f, n));
        lemma_find_self_from(c, j, i + 1);
    }
}

/// The attribute pass distributes over concatenation.
proof fn lemma_attr_pass_app(
    c: Container,
    st: Seq<crate::de::FieldAccV>,
    a1: Seq<AttrV>,
    a2: Seq<AttrV>,
)
    ensures
        crate::de::spec_attr_pass(c, st, a1 + a2, 0) == (match crate::de::spec_attr_pass(
            c,
            st,
            a1,
            0,
        ) {
            Ok(st2) => crate::de::spec_attr_pass(c, st2, a2, 0),
            Err(e) => Err(e),
        }),
    decreases a1.len(),
{
    if a1.len() == 0 {
        assert(a1 + a2 =~= a2);
    } else {
        let all = a1 + a2;
        assert(all[0] == a1[0]);
        match crate::de::spec_apply_attr(c, st, a1[0]) {
            Ok(st2) => {
                lemma_attr_pass_shift(c, st2, all, 1);
                lemma_attr_pass_shift(c, st2, a1, 1);
                assert(all.skip(1) =~= a1.skip(1) + a2);
                lemma_attr_pass_app(c, st2, a1.skip(1), a2);
            },
            Err(e) => {},
        }
    }
}

/// Processing a list from position `k` equals processing its suffix from
/// the start.
proof fn lemma_attr_pass_shift(c: Container, st: Seq<crate::de::FieldAccV>, a: Seq<AttrV>, k: int)
    requires
        0 <= k <= a.len(),
    ensures
        crate::de::spec_attr_pass(c, st, a, k) == crate::de::spec_attr_pass(c, st, a.skip(k), 0),
    decreases a.len() - k,
{
    let suf = a.skip(k);
    if k == 0 {
        assert(suf =~= a);
    } else if k < a.len() {
        assert(suf[0] == a[k]);
        match crate::de::spec_apply_attr(c, st, a[k]) {
            Ok(st2) => {
                lemma_attr_pass_shift(c, st2, a, k + 1);
                lemma_attr_pass_shift(c, st2, suf, 1);
                assert(suf.skip(1) =~= a.skip(k + 1));
            },
            Err(e) => {},
        }
    } else {
        assert(suf.len() == 0);
    }
}

/// The state the attribute pass leaves: every attribute field from `i`
/// on holds its read-back value, everything else is untouched.
pub open spec fn rt_after_attrs(
    c: Container,
    vals: Seq<Value>,
    st0: Seq<crate::de::FieldAccV>,
    i: int,
) -> Seq<crate::de::FieldAccV> {
    Seq::new(
        st0.len(),
        |j: int|
            if i <= j < c.struct_fields@.len() && c.struct_fields@[j].ty is Attr {
                crate::de::FieldAccV::Val(value_view(vals[j]))
            } else {
                st0[j]
            },
    )
}

/// The attribute pass restores every attribute field's value from the
/// serialized attribute list.
proof fn lemma_attr_pass_restores(
    c: Container,
    vals: Seq<Value>,
    st: Seq<crate::de::FieldAccV>,
    i: int,
)
    requires
        rt_schema_ok(c),
        rt_values_ok(c, vals),
        st.len() == c.struct_fields@.len(),
        0 <= i <= c.struct_fields@.len(),
    ensures
        crate::de::spec_attr_pass(c, st, crate::ser::spec_field_attrs(c, vals, i), 0) == Ok::<
            Seq<crate::de::FieldAccV>,
            ErrV,
        >(rt_after_attrs(c, vals, st, i)),
    decreases c.struct_fields@.len() - i,
{
    if i == c.struct_fields@.len() {
        assert(crate::ser::spec_field_attrs(c, vals, i) =~= Seq::<AttrV>::empty());
        assert(rt_after_attrs(c, vals, st, i) =~= st);
    } else {
        let f = c.struct_fields@[i];
        assert(rt_field_ok(c, f));
        let head = crate::ser::spec_attr_head(c, vals, i);
        let rest = crate::ser::spec_field_attrs(c, vals, i + 1);
        assert(crate::ser::spec_field_attrs(c, vals, i) == head + rest);
        lemma_attr_pass_app(c, st, head, rest);
        if f.ty is Attr {
            let kind = f.payload->Scalar_0;
            let name = crate::ser::ser_name(c, f);
            assert(head == seq![AttrV { name, value: crate::ser::spec_render(kind, vals[i]) }]);
            lemma_find_self(c, i);
            lemma_scalar_round_trip(kind, vals[i]);
            let st2 = crate::de::spec_assign(st, i, f.generic, value_view(vals[i]));
            assert(st2 == st.update(i, crate::de::FieldAccV::Val(value_view(vals[i]))));
            assert(crate::de::spec_attr_pass(c, st, head, 0) == Ok::<
                Seq<crate::de::FieldAccV>,
                ErrV,
            >(st2)) by {
                assert(crate::de::spec_apply_attr(c, st, head[0]) == Ok::<
                    Seq<crate::de::FieldAccV>,
                    ErrV,
                >(st2));
                assert(crate::de::spec_attr_pass(c, st2, head, 1) == Ok::<
                    Seq<crate::de::FieldAccV>,
                    ErrV,
                >(st2));
            }
            lemma_attr_pass_restores(c, vals, st2, i + 1);
            assert(rt_after_attrs(c, vals, st2, i + 1) =~= rt_after_attrs(c, vals, st, i));
        } else {
            assert(head =~= Seq::<AttrV>::empty());
            assert(head + rest =~= rest);
            lemma_attr_pass_restores(c, vals, st, i + 1);
            assert(rt_after_attrs(c, vals, st, i + 1) =~= rt_after_attrs(c, vals, st, i));
        }
    }
}

/// Finishing a record whose fields all hold values yields those values.
proof fn lemma_finalize_all(c: Container, vals: Seq<Value>, st: Seq<crate::de::FieldAccV>, i: int)
    requires
        st.len() == c.struct_fields@.len(),
        vals.len() == c.struct_fields@.len(),
        0 <= i <= c.struct_fields@.len(),
        forall|j: int|
            i <= j < st.len() ==> st[j] == crate::de::FieldAccV::Val(value_view(#[trigger] vals[j])),
    ensures
        crate::de::spec_finalize(c, st, i) == Ok::<Seq<crate::value::ValueV>, ErrV>(
            crate::value::values_view(vals).skip(i),
        ),
    decreases c.struct_fields@.len() - i,
{
    crate::value::lemma_values_view_len(vals);
    if i == c.struct_fields@.len() {
        assert(crate::value::values_view(vals).skip(i) =~= Seq::<crate::value::ValueV>::empty());
    } else {
        lemma_finalize_all(c, vals, st, i + 1);
        assert(seq![value_view(vals[i])] + crate::value::values_view(vals).skip(i + 1)
            =~= crate::value::values_view(vals).skip(i));
    }
}

/// With no untagged record fields, resolution changes nothing.
proof fn lemma_resolve_id(c: Container, st: Seq<crate::de::FieldAccV>, i: int)
    requires
        forall|j: int| 0 <= j < c.struct_fields@.len() ==> !(#[trigger] c.struct_fields@[j].ty is UntaggedStruct),
    ensures
        crate::de::spec_resolve_untagged(c, st, i) == Ok::<Seq<crate::de::FieldAccV>, ErrV>(st),
    decreases c.struct_fields@.len() - i,
{
    if 0 <= i < c.struct_fields@.len() {
        lemma_resolve_id(c, st, i + 1);
    }
}

/// The first text field is in bounds and is a text field.
proof fn lemma_text_field_bounds(c: Container, i: int)
    requires
        0 <= i,
    ensures
        (match crate::ser::spec_text_field(c, i) {
            Some(j) => i <= j < c.struct_fields@.len() && c.struct_fields@[j].ty is Text,
            None => true,
        }),
    decreases c.struct_fields@.len() - i,
{
    if i < c.struct_fields@.len() && !(c.struct_fields@[i].ty is Text) {
        lemma_text_field_bounds(c, i + 1);
    }
}

/// The round trip of a record-with-text value: reading back the events
/// its serialization writes restores the value, field for field.
pub proof fn lemma_round_trip(c: Container, vals: Seq<Value>)
    requires
        rt_schema_ok(c),
        rt_values_ok(c, vals),
        spec_root_names(c)[0].len() > 0,
        forall|i: int|
            0 <= i < c.struct_fields@.len() && (#[trigger] c.struct_fields@[i].ty) is Text
                ==> crate::ser::spec_text_field(c, 0) == Some(i),
    ensures
        ({
            let tag = spec_root_names(c)[0];
            let attrs = crate::ser::spec_ns_attrs(c) + crate::ser::spec_field_attrs(c, vals, 0);
            let evs = crate::ser::spec_ser_struct(c, vals, tag);
            crate::de::spec_de(c, tag, attrs, evs, 1, false) == Ok::<
                (crate::value::ValueV, int),
                ErrV,
            >((crate::value::ValueV::Record(crate::value::values_view(vals)), evs.len() as int))
        }),
{
    let tag = spec_root_names(c)[0];
    let attrs = crate::ser::spec_ns_attrs(c) + crate::ser::spec_field_attrs(c, vals, 0);
    let i0 = crate::ser::spec_text_field(c, 0)->0;
    lemma_text_field_bounds(c, 0);
    let f0 = c.struct_fields@[i0];
    assert(rt_field_ok(c, f0));
    let kind0 = f0.payload->Scalar_0;
    // the serialized shape: one start, the text, one end
    assert(crate::ser::spec_text_present(c, vals, i0));
    assert(crate::ser::spec_has_content(c, vals));
    let content = crate::ser::spec_struct_content(c, vals);
    assert(content == seq![
        EventV::Text { content: crate::ser::spec_render(kind0, vals[i0]) },
    ]);
    let evs = crate::ser::spec_ser_struct(c, vals, tag);
    assert(evs == seq![EventV::Start { name: tag, attrs }] + content + seq![
        EventV::End { name: tag },
    ]);
    assert(evs.len() == 3);
    assert(evs[1] == (EventV::Text { content: crate::ser::spec_render(kind0, vals[i0]) }));
    assert(evs[2] == (EventV::End { name: tag }));
    // the root check accepts the tag it was written under
    lemma_ci_refl(tag);
    assert(crate::schema::tags_contain_ci(spec_root_names(c), tag)) by {
        assert(ci_eq(spec_root_names(c)[0], tag));
    }
    // the attribute pass restores the attribute fields
    let st0 = crate::de::spec_init_state(c);
    assert(st0.len() == c.struct_fields@.len());
    assert(forall|j: int|
        0 <= j < st0.len() ==> st0[j] == crate::de::FieldAccV::Unset) by {
        assert(forall|j: int|
            0 <= j < c.struct_fields@.len() ==> rt_field_ok(c, #[trigger] c.struct_fields@[j]));
    }
    assert(attrs =~= crate::ser::spec_field_attrs(c, vals, 0)) by {
        assert(crate::ser::spec_ns_attrs(c) =~= Seq::<AttrV>::empty());
    }
    lemma_attr_pass_restores(c, vals, st0, 0);
    let st1 = rt_after_attrs(c, vals, st0, 0);
    assert(crate::de::spec_attr_pass(c, st0, attrs, 0) == Ok::<Seq<crate::de::FieldAccV>, ErrV>(
        st1,
    ));
    // list start-over touches nothing here
    let st2 = crate::de::spec_vec_init(c, st1);
    assert(st2 =~= st1);
    // the content loop reads the text and stops at the end
    lemma_scalar_round_trip(kind0, vals[i0]);
    let st3 = crate::de::spec_assign(
        st1,
        i0,
        crate::de::text_arity(f0.generic),
        value_view(vals[i0]),
    );
    assert(crate::de::spec_de_content(c, st1, tag, evs, 1) == Ok::<
        (Seq<crate::de::FieldAccV>, int),
        ErrV,
    >((st3, 3))) by {
        assert(crate::de::spec_de_content(c, st3, tag, evs, 2) == Ok::<
            (Seq<crate::de::FieldAccV>, int),
            ErrV,
        >((st3, 3)));
    }
    // every field now holds its value
    assert(forall|j: int|
        0 <= j < st3.len() ==> st3[j] == crate::de::FieldAccV::Val(value_view(
            #[trigger] vals[j],
        ))) by {
        assert(forall|j: int|
            0 <= j < c.struct_fields@.len() ==> rt_field_ok(c, #[trigger] c.struct_fields@[j]));
        assert(forall|j: int|
            0 <= j < st3.len() && c.struct_fields@[j].ty is Text ==> j == i0);
    }
    lemma_resolve_id(c, st3, 0);
    lemma_finalize_all(c, vals, st3, 0);
    assert(crate::value::values_view(vals).skip(0) =~= crate::value::values_view(vals));
}

/// Case-insensitivity of reading a record: a document whose attribute
/// names differ only in ASCII letter case populates the very same
/// fields with the very same values; failures agree up to the name an
/// unknown-field error reports.
pub proof fn lemma_de_attrs_ci(
    c: Container,
    tag: Seq<char>,
    a1: Seq<AttrV>,
    a2: Seq<AttrV>,
    events: Seq<EventV>,
    pos: int,
    is_empty: bool,
)
    requires
        c.enum_variants@.len() == 0,
        attrs_ci_eq(a1, a2),
    ensures
        (match (
            crate::de::spec_de(c, tag, a1, events, pos, is_empty),
            crate::de::spec_de(c, tag, a2, events, pos, is_empty),
        ) {
            (Ok(r1), Ok(r2)) => r1 == r2,
            (Err(e1), Err(e2)) => err_kind_eq(e1, e2),
            _ => false,
        }),
{
    if !(c.roots@.len() > 0 && !crate::schema::tags_contain_ci(spec_root_names(c), tag)) {
        let st0 = crate::de::spec_init_state(c);
        lemma_attr_pass_ci(c, st0, a1, a2, 0);
    }
}

} // verus!
