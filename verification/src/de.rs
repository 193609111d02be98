//! The deserialization engine: consumes a stream of events under a
//! schema and builds a value tree. Attributes are matched by
//! case-insensitive name, children dispatch by tag in a fixed priority,
//! untagged record children are buffered and replayed, and absent fields
//! take their defaults.
use crate::chars::{ci_eq, ws_only};
use crate::events::{attrs_view, evs_view, Attr, AttrV, EventV, XmlEvent};
use crate::num::{spec_parse_i64, spec_parse_u64};
use crate::schema::{
    attr_name_matches, spec_children_tags, spec_field_name, spec_root_names, tags_contain_ci,
    Arity, Container, EleType, EnumValueVariant, FieldPayload, ScalarKind, StructField,
};
use crate::ser::spec_text_field;
use crate::value::{unparsed_view, value_view, values_view, Unparsed, UnparsedV, Value, ValueV};
use vstd::prelude::*;

verus! {

/// What can go wrong while reading a document.
#[derive(Debug, Clone)]
pub enum XmlError {
    /// The element's tag is not one of the declared roots.
    UnexpectedRoot,
    /// A field with no value, no default and no empty form; also a sum
    /// value whose content named no variant.
    MissingRequiredField,
    /// An attribute or text value that its scalar format rejects.
    ScalarParseFailure,
    /// An undeclared attribute or child, under `deny_unknown`.
    UnknownField(Vec<char>),
    /// The document itself is not well formed.
    StreamError,
}

/// The mathematical form of an error.
pub enum ErrV {
    UnexpectedRoot,
    MissingRequiredField,
    ScalarParseFailure,
    UnknownField(Seq<char>),
    StreamError,
}

pub open spec fn err_view(e: XmlError) -> ErrV {
    match e {
        XmlError::UnexpectedRoot => ErrV::UnexpectedRoot,
        XmlError::MissingRequiredField => ErrV::MissingRequiredField,
        XmlError::ScalarParseFailure => ErrV::ScalarParseFailure,
        XmlError::UnknownField(n) => ErrV::UnknownField(n@),
        XmlError::StreamError => ErrV::StreamError,
    }
}

impl XmlError {
    /// A short description of the error.
    pub fn message(&self) -> (r: &'static str)
        ensures
            r@.len() > 0,
    {
        proof {
            reveal_strlit("unexpected root element");
            reveal_strlit("missing required field");
            reveal_strlit("cannot parse the value");
            reveal_strlit("encountering unknown field");
            reveal_strlit("malformed document");
        }
        match self {
            XmlError::UnexpectedRoot => "unexpected root element",
            XmlError::MissingRequiredField => "missing required field",
            XmlError::ScalarParseFailure => "cannot parse the value",
            XmlError::UnknownField(_) => "encountering unknown field",
            XmlError::StreamError => "malformed document",
        }
    }
}

/// The working state of one field while its record is read.
pub enum FieldAcc {
    /// Nothing seen yet.
    Unset,
    /// A value, ready to take its place in the record.
    Val(Value),
    /// The entries of a list field, in document order.
    ListAcc(Vec<Value>),
    /// The buffered captures of an untagged record field.
    Caps(Vec<(Vec<char>, Unparsed)>),
}

/// The mathematical form of a field state.
pub enum FieldAccV {
    Unset,
    Val(ValueV),
    ListAcc(Seq<ValueV>),
    Caps(Seq<(Seq<char>, UnparsedV)>),
}

pub open spec fn cap_view(c: (Vec<char>, Unparsed)) -> (Seq<char>, UnparsedV) {
    (c.0@, unparsed_view(c.1))
}

pub open spec fn caps_view(s: Seq<(Vec<char>, Unparsed)>) -> Seq<(Seq<char>, UnparsedV)> {
    s.map_values(|c: (Vec<char>, Unparsed)| cap_view(c))
}

pub open spec fn acc_view(a: FieldAcc) -> FieldAccV {
    match a {
        FieldAcc::Unset => FieldAccV::Unset,
        FieldAcc::Val(v) => FieldAccV::Val(value_view(v)),
        FieldAcc::ListAcc(items) => FieldAccV::ListAcc(values_view(items@)),
        FieldAcc::Caps(caps) => FieldAccV::Caps(caps_view(caps@)),
    }
}

pub open spec fn accs_view(s: Seq<FieldAcc>) -> Seq<FieldAccV> {
    s.map_values(|a: FieldAcc| acc_view(a))
}

/// The value a scalar format reads from a text, if it accepts it.
/// Booleans read `1`, `0`, `true` and `false` in any letter case;
/// numbers are decimal; a string-enum is scanned in declaration order
/// for an exact match before its catch-all takes the rest.
pub open spec fn spec_parse_scalar(kind: ScalarKind, s: Seq<char>) -> Option<ValueV> {
    match kind {
        ScalarKind::SBool => if ci_eq(s, "1"@) || ci_eq(s, "true"@) {
            Some(ValueV::Bool(true))
        } else if ci_eq(s, "0"@) || ci_eq(s, "false"@) {
            Some(ValueV::Bool(false))
        } else {
            None
        },
        ScalarKind::SString => Some(ValueV::Str(s)),
        ScalarKind::SDecimal => Some(ValueV::Decimal(s)),
        ScalarKind::SU8 => spec_parse_bounded_u(s, 255),
        ScalarKind::SU16 => spec_parse_bounded_u(s, 65535),
        ScalarKind::SU32 => spec_parse_bounded_u(s, 4294967295),
        ScalarKind::SU64 => spec_parse_bounded_u(s, 18446744073709551615),
        ScalarKind::SI8 => spec_parse_bounded_i(s, -128, 127),
        ScalarKind::SI16 => spec_parse_bounded_i(s, -32768, 32767),
        ScalarKind::SI32 => spec_parse_bounded_i(s, -2147483648, 2147483647),
        ScalarKind::SI64 => spec_parse_bounded_i(s, i64::MIN as int, i64::MAX as int),
        ScalarKind::SEnum(m) => spec_parse_enum(m.variants@, s),
    }
}

pub open spec fn spec_parse_bounded_u(s: Seq<char>, max: u64) -> Option<ValueV> {
    match spec_parse_u64(s) {
        Some(n) => if n <= max {
            Some(ValueV::UInt(n))
        } else {
            None
        },
        None => None,
    }
}

pub open spec fn spec_parse_bounded_i(s: Seq<char>, min: int, max: int) -> Option<ValueV> {
    match spec_parse_i64(s) {
        Some(n) => if min <= n <= max {
            Some(ValueV::Int(n))
        } else {
            None
        },
        None => None,
    }
}

/// Whether a string-enum variant answers to a text.
pub open spec fn variant_matches(v: EnumValueVariant, s: Seq<char>) -> bool {
    !v.is_other && (v.value@ == s || (exists|k: int| 0 <= k < v.mapped@.len() && v.mapped@[k]@ == s))
}

/// The first listed variant matching the text, from `i` on.
pub open spec fn spec_enum_exact(vs: Seq<EnumValueVariant>, s: Seq<char>, i: int) -> Option<int>
    decreases vs.len() - i,
{
    if i < 0 || i >= vs.len() {
        None
    } else if variant_matches(vs[i], s) {
        Some(i)
    } else {
        spec_enum_exact(vs, s, i + 1)
    }
}

/// The first catch-all variant, from `i` on.
pub open spec fn spec_enum_other(vs: Seq<EnumValueVariant>, i: int) -> Option<int>
    decreases vs.len() - i,
{
    if i < 0 || i >= vs.len() {
        None
    } else if vs[i].is_other {
        Some(i)
    } else {
        spec_enum_other(vs, i + 1)
    }
}

pub open spec fn spec_parse_enum(vs: Seq<EnumValueVariant>, s: Seq<char>) -> Option<ValueV> {
    match spec_enum_exact(vs, s, 0) {
        Some(i) => Some(ValueV::EnumUnit(i as nat)),
        None => match spec_enum_other(vs, 0) {
            Some(i) => Some(ValueV::EnumOther(i as nat, s)),
            None => None,
        },
    }
}

/// The first attribute field addressed by a name, from `i` on.
pub open spec fn spec_find_attr(c: Container, n: Seq<char>, i: int) -> Option<int>
    decreases c.struct_fields@.len() - i,
{
    if i < 0 || i >= c.struct_fields@.len() {
        None
    } else {
        let f = c.struct_fields@[i];
        if f.ty is Attr && f.payload is Scalar && attr_name_matches(c, f, n) {
            Some(i)
        } else {
            spec_find_attr(c, n, i + 1)
        }
    }
}

/// Store a freshly read value in a field's state, by the field's arity:
/// a list appends, the rest overwrite.
pub open spec fn spec_assign(st: Seq<FieldAccV>, i: int, arity: Arity, v: ValueV) -> Seq<
    FieldAccV,
> {
    match arity {
        Arity::List => {
            let items = match st[i] {
                FieldAccV::ListAcc(items) => items,
                _ => Seq::empty(),
            };
            st.update(i, FieldAccV::ListAcc(items.push(v)))
        },
        Arity::Optional => st.update(i, FieldAccV::Val(ValueV::Opt(Some(Box::new(v))))),
        _ => st.update(i, FieldAccV::Val(v)),
    }
}

/// One attribute applied to the state: the first matching attribute
/// field receives its parsed value; an unknown name is an error exactly
/// under `deny_unknown`.
pub open spec fn spec_apply_attr(c: Container, st: Seq<FieldAccV>, a: AttrV) -> Result<
    Seq<FieldAccV>,
    ErrV,
> {
    match spec_find_attr(c, a.name, 0) {
        None => if c.deny_unknown {
            Err(ErrV::UnknownField(a.name))
        } else {
            Ok(st)
        },
        Some(i) => {
            let f = c.struct_fields@[i];
            match f.payload {
                FieldPayload::Scalar(kind) => match spec_parse_scalar(kind, a.value) {
                    None => Err(ErrV::ScalarParseFailure),
                    Some(v) => Ok(spec_assign(st, i, f.generic, v)),
                },
                _ => Ok(st),
            }
        },
    }
}

/// The whole attribute list applied in order.
pub open spec fn spec_attr_pass(
    c: Container,
    st: Seq<FieldAccV>,
    attrs: Seq<AttrV>,
    k: int,
) -> Result<Seq<FieldAccV>, ErrV>
    decreases attrs.len() - k,
{
    if k < 0 || k >= attrs.len() {
        Ok(st)
    } else {
        match spec_apply_attr(c, st, attrs[k]) {
            Err(e) => Err(e),
            Ok(st2) => spec_attr_pass(c, st2, attrs, k + 1),
        }
    }
}

/// The state a record starts from: lists begin with their default
/// entries, untagged record fields with an empty buffer, the rest unset.
pub open spec fn spec_acc_init(f: StructField) -> FieldAccV {
    if f.ty is UntaggedStruct {
        FieldAccV::Caps(Seq::empty())
    } else if f.generic is List {
        FieldAccV::ListAcc(
            match f.default {
                Some(Value::List(items)) => values_view(items@),
                _ => Seq::empty(),
            },
        )
    } else {
        FieldAccV::Unset
    }
}

pub open spec fn spec_init_state(c: Container) -> Seq<FieldAccV> {
    Seq::new(c.struct_fields@.len(), |i: int| spec_acc_init(c.struct_fields@[i]))
}

/// A list field with a size hint starts over, empty, once the
/// attributes are known.
pub open spec fn spec_vec_init(c: Container, st: Seq<FieldAccV>) -> Seq<FieldAccV> {
    Seq::new(
        st.len(),
        |i: int|
            if i < c.struct_fields@.len() && c.struct_fields@[i].ty is Child && c.struct_fields@[
                i].generic is List && c.struct_fields@[i].vec_size is Some {
                FieldAccV::ListAcc(Seq::empty())
            } else {
                st[i]
            },
    )
}

/// The first self-closing marker field a tag addresses, from `i` on.
pub open spec fn spec_find_sfc(c: Container, n: Seq<char>, i: int) -> Option<int>
    decreases c.struct_fields@.len() - i,
{
    if i < 0 || i >= c.struct_fields@.len() {
        None
    } else {
        let f = c.struct_fields@[i];
        if f.ty is SelfClosedChild && (match spec_field_name(c, f) {
            Some(m) => ci_eq(n, m),
            None => false,
        }) {
            Some(i)
        } else {
            spec_find_sfc(c, n, i + 1)
        }
    }
}

/// The first child field a tag addresses, from `i` on.
pub open spec fn spec_find_child(c: Container, n: Seq<char>, i: int) -> Option<int>
    decreases c.struct_fields@.len() - i,
{
    if i < 0 || i >= c.struct_fields@.len() {
        None
    } else {
        let f = c.struct_fields@[i];
        if f.ty is Child && (match spec_field_name(c, f) {
            Some(m) => ci_eq(n, m),
            None => false,
        }) {
            Some(i)
        } else {
            spec_find_child(c, n, i + 1)
        }
    }
}

/// The first untagged-enum field whose nested type answers to a tag.
pub open spec fn spec_find_untag(c: Container, n: Seq<char>, i: int) -> Option<int>
    decreases c.struct_fields@.len() - i,
{
    if i < 0 || i >= c.struct_fields@.len() {
        None
    } else {
        let f = c.struct_fields@[i];
        if (f.ty is Untag || f.ty is UntaggedEnum) && (match f.payload {
            FieldPayload::Nested(b) => tags_contain_ci(spec_children_tags(*b), n),
            _ => false,
        }) {
            Some(i)
        } else {
            spec_find_untag(c, n, i + 1)
        }
    }
}

/// The first untagged-record field whose nested type answers to a tag.
pub open spec fn spec_find_untag_struct(c: Container, n: Seq<char>, i: int) -> Option<int>
    decreases c.struct_fields@.len() - i,
{
    if i < 0 || i >= c.struct_fields@.len() {
        None
    } else {
        let f = c.struct_fields@[i];
        if f.ty is UntaggedStruct && (match f.payload {
            FieldPayload::Nested(b) => tags_contain_ci(spec_children_tags(*b), n),
            _ => false,
        }) {
            Some(i)
        } else {
            spec_find_untag_struct(c, n, i + 1)
        }
    }
}

/// The raw events up to the end that closes the element, tracking
/// nesting depth; the stream may end first. Returns the captured events
/// and the position after the closing end.
pub open spec fn spec_cap_events(
    tag: Seq<char>,
    events: Seq<EventV>,
    pos: int,
    depth: int,
) -> (Seq<EventV>, int)
    decreases events.len() - pos,
{
    if pos < 0 || pos >= events.len() {
        (Seq::empty(), if pos < 0 {
            0
        } else {
            pos
        })
    } else {
        match events[pos] {
            EventV::End { name } => if depth <= 0 && name == tag {
                (Seq::empty(), pos + 1)
            } else {
                let (rest, p) = spec_cap_events(
                    tag,
                    events,
                    pos + 1,
                    if depth - 1 < 0 {
                        0
                    } else {
                        depth - 1
                    },
                );
                (seq![events[pos]] + rest, p)
            },
            EventV::Start { name, attrs } => {
                let (rest, p) = spec_cap_events(tag, events, pos + 1, depth + 1);
                (seq![events[pos]] + rest, p)
            },
            _ => {
                let (rest, p) = spec_cap_events(tag, events, pos + 1, depth);
                (seq![events[pos]] + rest, p)
            },
        }
    }
}

/// Capture an element verbatim: its attributes and, unless it was
/// self-closing, its raw content events.
pub open spec fn spec_capture(
    tag: Seq<char>,
    attrs: Seq<AttrV>,
    events: Seq<EventV>,
    pos: int,
    is_empty: bool,
) -> (UnparsedV, int) {
    if is_empty {
        (UnparsedV { attrs, data: Seq::empty() }, pos)
    } else {
        let (data, p) = spec_cap_events(tag, events, pos, 0);
        (UnparsedV { attrs, data }, p)
    }
}

/// The first text variant of a sum schema, from `i` on.
pub open spec fn spec_text_variant(c: Container, i: int) -> Option<int>
    decreases c.enum_variants@.len() - i,
{
    if i < 0 || i >= c.enum_variants@.len() {
        None
    } else if c.enum_variants@[i].ele_type is Text {
        Some(i)
    } else {
        spec_text_variant(c, i + 1)
    }
}

/// Non-whitespace text offered to every untagged-enum field whose nested
/// sum declares a text variant, from field `i` on.
pub open spec fn spec_text_untags(
    c: Container,
    st: Seq<FieldAccV>,
    content: Seq<char>,
    i: int,
) -> Result<Seq<FieldAccV>, ErrV>
    decreases c.struct_fields@.len() - i,
{
    if i < 0 || i >= c.struct_fields@.len() {
        Ok(st)
    } else {
        let f = c.struct_fields@[i];
        let step: Result<Seq<FieldAccV>, ErrV> = if (f.ty is Untag || f.ty is UntaggedEnum) {
            match f.payload {
                FieldPayload::Nested(b) => match spec_text_variant(*b, 0) {
                    Some(tv) => match b.enum_variants@[tv].payload {
                        Some(FieldPayload::Scalar(kind)) => match spec_parse_scalar(
                            kind,
                            content,
                        ) {
                            Some(v) => Ok(
                                spec_assign(
                                    st,
                                    i,
                                    f.generic,
                                    ValueV::Variant(tv as nat, Some(Box::new(v))),
                                ),
                            ),
                            None => Err(ErrV::ScalarParseFailure),
                        },
                        _ => Ok(st),
                    },
                    None => Ok(st),
                },
                _ => Ok(st),
            }
        } else {
            Ok(st)
        };
        match step {
            Err(e) => Err(e),
            Ok(st2) => spec_text_untags(c, st2, content, i + 1),
        }
    }
}

/// The first matching variant of a sum schema for a tag, in declaration
/// order, the text variant never among them.
pub open spec fn spec_enum_match(c: Container, tag: Seq<char>, i: int) -> Option<int>
    decreases c.enum_variants@.len() - i,
{
    if i < 0 || i >= c.enum_variants@.len() {
        None
    } else {
        let v = c.enum_variants@[i];
        if !(v.ele_type is Text) && (match v.name {
            Some(n) => ci_eq(n@, tag),
            None => false,
        }) {
            Some(i)
        } else {
            spec_enum_match(c, tag, i + 1)
        }
    }
}

pub proof fn lemma_find_child_bounds(c: Container, n: Seq<char>, i: int)
    requires
        0 <= i,
    ensures
        (match spec_find_child(c, n, i) {
            Some(j) => i <= j < c.struct_fields@.len(),
            None => true,
        }),
    decreases c.struct_fields@.len() - i,
{
    if i < c.struct_fields@.len() {
        lemma_find_child_bounds(c, n, i + 1);
    }
}

pub proof fn lemma_find_untag_bounds(c: Container, n: Seq<char>, i: int)
    requires
        0 <= i,
    ensures
        (match spec_find_untag(c, n, i) {
            Some(j) => i <= j < c.struct_fields@.len(),
            None => true,
        }),
        (match spec_find_untag_struct(c, n, i) {
            Some(j) => i <= j < c.struct_fields@.len(),
            None => true,
        }),
        (match spec_find_sfc(c, n, i) {
            Some(j) => i <= j < c.struct_fields@.len(),
            None => true,
        }),
        (match spec_find_attr(c, n, i) {
            Some(j) => i <= j < c.struct_fields@.len(),
            None => true,
        }),
    decreases c.struct_fields@.len() - i,
{
    if i < c.struct_fields@.len() {
        lemma_find_untag_bounds(c, n, i + 1);
    }
}

/// Positions never move backwards: the continuation resumes after the
/// event that was dispatched, at least.
pub open spec fn clamp_pos(p: int, lo: int, hi: int) -> int {
    if p < lo {
        lo
    } else if p > hi {
        hi
    } else {
        p
    }
}

/// Read one element's worth of value under a field payload: a nested
/// schema parses it, an opaque payload captures it.
pub open spec fn spec_de_element(
    p: FieldPayload,
    tag: Seq<char>,
    attrs: Seq<AttrV>,
    events: Seq<EventV>,
    pos: int,
    is_empty: bool,
) -> Result<(ValueV, int), ErrV>
    decreases p, 8int, 0int, 0int,
{
    match p {
        FieldPayload::Nested(b) => spec_de(*b, tag, attrs, events, pos, is_empty),
        FieldPayload::Opaque => {
            let (u, p2) = spec_capture(tag, attrs, events, pos, is_empty);
            Ok((ValueV::Unparsed(u), p2))
        },
        _ => Err(ErrV::MissingRequiredField),
    }
}

/// The content loop of a record: events are consumed until the matching
/// end or the end of the stream; each start, empty element or text is
/// dispatched in the fixed priority.
pub open spec fn spec_de_content(
    c: Container,
    st: Seq<FieldAccV>,
    tag: Seq<char>,
    events: Seq<EventV>,
    pos: int,
) -> Result<(Seq<FieldAccV>, int), ErrV>
    decreases c, 5int, events.len() - pos, 1int,
{
    if pos < 0 || pos >= events.len() {
        Ok((st, if pos < 0 {
            0
        } else {
            pos
        }))
    } else {
        match events[pos] {
            EventV::End { name } => if name == tag {
                Ok((st, pos + 1))
            } else {
                spec_de_content(c, st, tag, events, pos + 1)
            },
            EventV::Start { name, attrs } => spec_de_child(
                c,
                st,
                tag,
                events,
                pos,
                name,
                attrs,
                false,
            ),
            EventV::Empty { name, attrs } => {
                match spec_find_sfc(c, name, 0) {
                    Some(i) => spec_de_content(
                        c,
                        st.update(i, FieldAccV::Val(ValueV::Bool(true))),
                        tag,
                        events,
                        pos + 1,
                    ),
                    None => spec_de_child(c, st, tag, events, pos, name, attrs, true),
                }
            },
            EventV::Text { content } => {
                let step: Result<Seq<FieldAccV>, ErrV> = match spec_text_field(c, 0) {
                    Some(i) => {
                        let f = c.struct_fields@[i];
                        match f.payload {
                            FieldPayload::Scalar(kind) => match spec_parse_scalar(kind, content) {
                                Some(v) => Ok(spec_assign(st, i, text_arity(f.generic), v)),
                                None => Err(ErrV::ScalarParseFailure),
                            },
                            _ => Ok(st),
                        }
                    },
                    None => if !ws_only(content) {
                        spec_text_untags(c, st, content, 0)
                    } else {
                        Ok(st)
                    },
                };
                match step {
                    Err(e) => Err(e),
                    Ok(st2) => spec_de_content(c, st2, tag, events, pos + 1),
                }
            },
        }
    }
}

/// A text field of optional arity wraps its value; the rest store it
/// plainly.
pub open spec fn text_arity(a: Arity) -> Arity {
    match a {
        Arity::Optional => Arity::Optional,
        _ => Arity::Scalar,
    }
}

/// Dispatch one start or empty element inside a record, in the fixed
/// priority: a named child field, an untagged-enum field whose nested
/// tags know the name, an untagged-record field likewise, else the
/// unknown-child path.
pub open spec fn spec_de_child(
    c: Container,
    st: Seq<FieldAccV>,
    tag: Seq<char>,
    events: Seq<EventV>,
    pos: int,
    name: Seq<char>,
    attrs: Seq<AttrV>,
    is_empty: bool,
) -> Result<(Seq<FieldAccV>, int), ErrV>
    decreases c, 5int, events.len() - pos, 0int,
    when 0 <= pos < events.len()
{
    proof {
        lemma_find_child_bounds(c, name, 0);
        lemma_find_untag_bounds(c, name, 0);
    }
    match spec_find_child(c, name, 0) {
        Some(i) => {
            let f = c.struct_fields@[i];
            match spec_de_element(f.payload, name, attrs, events, pos + 1, is_empty) {
                Err(e) => Err(e),
                Ok((v, p2)) => spec_de_content(
                    c,
                    spec_assign(st, i, f.generic, v),
                    tag,
                    events,
                    clamp_pos(p2, pos + 1, events.len() as int),
                ),
            }
        },
        None => match spec_find_untag(c, name, 0) {
            Some(i) => {
                let f = c.struct_fields@[i];
                match spec_de_element(f.payload, name, attrs, events, pos + 1, is_empty) {
                    Err(e) => Err(e),
                    Ok((v, p2)) => spec_de_content(
                        c,
                        spec_assign(st, i, f.generic, v),
                        tag,
                        events,
                        clamp_pos(p2, pos + 1, events.len() as int),
                    ),
                }
            },
            None => match spec_find_untag_struct(c, name, 0) {
                Some(i) => {
                    let (u, p2) = spec_capture(name, attrs, events, pos + 1, is_empty);
                    let caps = match st[i] {
                        FieldAccV::Caps(caps) => caps,
                        _ => Seq::empty(),
                    };
                    spec_de_content(
                        c,
                        st.update(i, FieldAccV::Caps(caps.push((name, u)))),
                        tag,
                        events,
                        clamp_pos(p2, pos + 1, events.len() as int),
                    )
                },
                None => if c.deny_unknown {
                    Err(ErrV::UnknownField(name))
                } else {
                    spec_de_content(c, st, tag, events, pos + 1)
                },
            },
        },
    }
}

/// Replay the buffered captures of an untagged record field through its
/// own schema: each capture feeds the first child field its tag
/// addresses, and the record is then finished as usual.
pub open spec fn spec_replay_fold(
    b: Container,
    st: Seq<FieldAccV>,
    caps: Seq<(Seq<char>, UnparsedV)>,
    j: int,
) -> Result<Seq<FieldAccV>, ErrV>
    decreases b, 6int, caps.len() - j, 0int,
{
    if j < 0 || j >= caps.len() {
        Ok(st)
    } else {
        let (t, u) = caps[j];
        proof {
            lemma_find_child_bounds(b, t, 0);
        }
        match spec_find_child(b, t, 0) {
            Some(i) => {
                let f = b.struct_fields@[i];
                match spec_de_element(f.payload, t, u.attrs, u.data, 0, u.data.len() == 0) {
                    Err(e) => Err(e),
                    Ok((v, _)) => spec_replay_fold(
                        b,
                        spec_assign(st, i, f.generic, v),
                        caps,
                        j + 1,
                    ),
                }
            },
            None => spec_replay_fold(b, st, caps, j + 1),
        }
    }
}

pub open spec fn spec_replay(b: Container, caps: Seq<(Seq<char>, UnparsedV)>) -> Result<
    ValueV,
    ErrV,
>
    decreases b, 7int, 0int, 0int,
{
    match spec_replay_fold(b, spec_init_state(b), caps, 0) {
        Err(e) => Err(e),
        Ok(st) => match spec_finalize(b, st, 0) {
            Err(e) => Err(e),
            Ok(values) => Ok(ValueV::Record(values)),
        },
    }
}

/// Resolve the untagged record fields once the content is consumed: a
/// field with captures replays them; one without keeps its default or is
/// reported missing by the finish step.
pub open spec fn spec_resolve_untagged(c: Container, st: Seq<FieldAccV>, i: int) -> Result<
    Seq<FieldAccV>,
    ErrV,
>
    decreases c, 8int, c.struct_fields@.len() - i, 0int,
{
    if i < 0 || i >= c.struct_fields@.len() {
        Ok(st)
    } else {
        let f = c.struct_fields@[i];
        let step: Result<Seq<FieldAccV>, ErrV> = if f.ty is UntaggedStruct {
            match (f.payload, st[i]) {
                (FieldPayload::Nested(b), FieldAccV::Caps(caps)) => if caps.len() > 0 {
                    match spec_replay(*b, caps) {
                        Err(e) => Err(e),
                        Ok(v) => Ok(spec_assign(st, i, untag_struct_arity(f.generic), v)),
                    }
                } else {
                    Ok(st)
                },
                _ => Ok(st),
            }
        } else {
            Ok(st)
        };
        match step {
            Err(e) => Err(e),
            Ok(st2) => spec_resolve_untagged(c, st2, i + 1),
        }
    }
}

/// A resolved untagged record lands wrapped for an optional field and
/// plainly otherwise.
pub open spec fn untag_struct_arity(a: Arity) -> Arity {
    match a {
        Arity::Optional => Arity::Optional,
        _ => Arity::Scalar,
    }
}

/// The finished field values, from field `i` on: a field that saw
/// nothing takes its default, the empty value of its arity, `false` for
/// a marker; a required field with none of those is missing.
pub open spec fn spec_finalize(c: Container, st: Seq<FieldAccV>, i: int) -> Result<
    Seq<ValueV>,
    ErrV,
>
    decreases c.struct_fields@.len() - i,
{
    if i < 0 || i >= c.struct_fields@.len() {
        Ok(Seq::empty())
    } else {
        let f = c.struct_fields@[i];
        let head: Result<ValueV, ErrV> = if i < st.len() {
            match st[i] {
                FieldAccV::Val(v) => Ok(v),
                FieldAccV::ListAcc(items) => Ok(ValueV::List(items)),
                _ => spec_absent_value(f),
            }
        } else {
            spec_absent_value(f)
        };
        match head {
            Err(e) => Err(e),
            Ok(v) => match spec_finalize(c, st, i + 1) {
                Err(e) => Err(e),
                Ok(rest) => Ok(seq![v] + rest),
            },
        }
    }
}

/// The value of a field nothing was read for.
pub open spec fn spec_absent_value(f: StructField) -> Result<ValueV, ErrV> {
    if f.ty is SelfClosedChild {
        Ok(ValueV::Bool(false))
    } else {
        match f.default {
            Some(d) => Ok(value_view(d)),
            None => if f.generic is Optional || f.generic is Boxed {
                Ok(ValueV::Opt(None))
            } else if f.generic is List {
                Ok(ValueV::List(Seq::empty()))
            } else {
                Err(ErrV::MissingRequiredField)
            },
        }
    }
}

/// The fallback scan of a sum type whose triggering tag named no
/// variant: events are read until one does; the first match returns at
/// once, and running out of content is an error.
pub open spec fn spec_enum_scan(
    c: Container,
    tag: Seq<char>,
    events: Seq<EventV>,
    pos: int,
) -> Result<(ValueV, int), ErrV>
    decreases c, 5int, events.len() - pos, 0int,
{
    if pos < 0 || pos >= events.len() {
        Err(ErrV::MissingRequiredField)
    } else {
        match events[pos] {
            EventV::End { name } => if name == tag {
                Err(ErrV::MissingRequiredField)
            } else {
                spec_enum_scan(c, tag, events, pos + 1)
            },
            EventV::Start { name, attrs } => match spec_enum_match(c, name, 0) {
                Some(idx) => spec_enum_build(c, idx, attrs, events, pos + 1, false),
                None => spec_enum_scan(c, tag, events, pos + 1),
            },
            EventV::Empty { name, attrs } => match spec_enum_match(c, name, 0) {
                Some(idx) => spec_enum_build(c, idx, attrs, events, pos + 1, true),
                None => spec_enum_scan(c, tag, events, pos + 1),
            },
            _ => spec_enum_scan(c, tag, events, pos + 1),
        }
    }
}

/// Build the matched variant: a payload parses under the variant's
/// declared tag, a unit variant is immediate.
pub open spec fn spec_enum_build(
    c: Container,
    idx: int,
    attrs: Seq<AttrV>,
    events: Seq<EventV>,
    pos: int,
    is_empty: bool,
) -> Result<(ValueV, int), ErrV>
    decreases c, 4int, 0int, 0int,
{
    if idx < 0 || idx >= c.enum_variants@.len() {
        Err(ErrV::MissingRequiredField)
    } else {
        let var = c.enum_variants@[idx];
        let vname: Seq<char> = match var.name {
            Some(n) => n@,
            None => Seq::empty(),
        };
        match var.payload {
            Some(p) => match spec_de_element(p, vname, attrs, events, pos, is_empty) {
                Err(e) => Err(e),
                Ok((v, p2)) => Ok((ValueV::Variant(idx as nat, Some(Box::new(v))), p2)),
            },
            None => Ok((ValueV::Variant(idx as nat, None), pos)),
        }
    }
}

/// Read one value: for a record, the attribute pass, the content loop,
/// untagged resolution and the finish; for a sum, the variant match on
/// the triggering tag, else the fallback scan.
pub open spec fn spec_de(
    c: Container,
    tag: Seq<char>,
    attrs: Seq<AttrV>,
    events: Seq<EventV>,
    pos: int,
    is_empty: bool,
) -> Result<(ValueV, int), ErrV>
    decreases c, 9int, 0int, 0int,
{
    if c.enum_variants@.len() > 0 {
        match spec_enum_match(c, tag, 0) {
            Some(idx) => spec_enum_build(c, idx, attrs, events, pos, is_empty),
            None => spec_enum_scan(c, tag, events, pos),
        }
    } else {
        if c.roots@.len() > 0 && !tags_contain_ci(spec_root_names(c), tag) {
            Err(ErrV::UnexpectedRoot)
        } else {
            match spec_attr_pass(c, spec_init_state(c), attrs, 0) {
                Err(e) => Err(e),
                Ok(st1) => {
                    let st2 = spec_vec_init(c, st1);
                    let after: Result<(Seq<FieldAccV>, int), ErrV> = if is_empty {
                        Ok((st2, pos))
                    } else {
                        spec_de_content(c, st2, tag, events, pos)
                    };
                    match after {
                        Err(e) => Err(e),
                        Ok((st3, p2)) => match spec_resolve_untagged(c, st3, 0) {
                            Err(e) => Err(e),
                            Ok(st4) => match spec_finalize(c, st4, 0) {
                                Err(e) => Err(e),
                                Ok(values) => Ok((ValueV::Record(values), p2)),
                            },
                        },
                    }
                },
            }
        }
    }
}

/// Parse a scalar text under a format.
pub fn parse_scalar(kind: &ScalarKind, s: &Vec<char>) -> (r: Option<Value>)
    ensures
        (match r {
            Some(v) => spec_parse_scalar(*kind, s@) == Some(value_view(v)),
            None => spec_parse_scalar(*kind, s@) is None,
        }),
{
    match kind {
        ScalarKind::SBool => {
            let one = crate::chars::str_chars("1");
            let tr = crate::chars::str_chars("true");
            let zero = crate::chars::str_chars("0");
            let fa = crate::chars::str_chars("false");
            if crate::chars::matches_ci(s, &one) || crate::chars::matches_ci(s, &tr) {
                Some(Value::Bool(true))
            } else if crate::chars::matches_ci(s, &zero) || crate::chars::matches_ci(s, &fa) {
                Some(Value::Bool(false))
            } else {
                None
            }
        },
        ScalarKind::SString => Some(Value::Str(crate::chars::clone_chars(s))),
        ScalarKind::SDecimal => Some(Value::Decimal(crate::chars::clone_chars(s))),
        ScalarKind::SU8 => parse_bounded_u(s, 255),
        ScalarKind::SU16 => parse_bounded_u(s, 65535),
        ScalarKind::SU32 => parse_bounded_u(s, 4294967295),
        ScalarKind::SU64 => parse_bounded_u(s, 18446744073709551615),
        ScalarKind::SI8 => parse_bounded_i(s, -128, 127),
        ScalarKind::SI16 => parse_bounded_i(s, -32768, 32767),
        ScalarKind::SI32 => parse_bounded_i(s, -2147483648, 2147483647),
        ScalarKind::SI64 => parse_bounded_i(s, i64::MIN, i64::MAX),
        ScalarKind::SEnum(m) => parse_enum_value(m, s),
    }
}

fn parse_bounded_u(s: &Vec<char>, max: u64) -> (r: Option<Value>)
    ensures
        (match r {
            Some(v) => spec_parse_bounded_u(s@, max) == Some(value_view(v)),
            None => spec_parse_bounded_u(s@, max) is None,
        }),
{
    match crate::num::parse_u64(s) {
        Some(n) => if n <= max {
            Some(Value::UInt(n))
        } else {
            None
        },
        None => None,
    }
}

fn parse_bounded_i(s: &Vec<char>, min: i64, max: i64) -> (r: Option<Value>)
    ensures
        (match r {
            Some(v) => spec_parse_bounded_i(s@, min as int, max as int) == Some(value_view(v)),
            None => spec_parse_bounded_i(s@, min as int, max as int) is None,
        }),
{
    match crate::num::parse_i64(s) {
        Some(n) => if min <= n && n <= max {
            Some(Value::Int(n))
        } else {
            None
        },
        None => None,
    }
}

/// Whether a string-enum variant answers to a text.
fn variant_matches_x(v: &EnumValueVariant, s: &Vec<char>) -> (r: bool)
    ensures
        r == variant_matches(*v, s@),
{
    if v.is_other {
        return false;
    }
    if crate::chars::chars_eq(&v.value, s) {
        return true;
    }
    let mut k: usize = 0;
    while k < v.mapped.len()
        invariant
            k <= v.mapped@.len(),
            !v.is_other,
            forall|j: int| 0 <= j < k ==> v.mapped@[j]@ != s@,
        decreases v.mapped@.len() - k,
    {
        if crate::chars::chars_eq(&v.mapped[k], s) {
            proof {
                assert(v.mapped@[k as int]@ == s@);
            }
            return true;
        }
        k += 1;
    }
    false
}

fn parse_enum_value(m: &crate::schema::EnumMapping, s: &Vec<char>) -> (r: Option<Value>)
    ensures
        (match r {
            Some(v) => spec_parse_enum(m.variants@, s@) == Some(value_view(v)),
            None => spec_parse_enum(m.variants@, s@) is None,
        }),
{
    let mut i: usize = 0;
    while i < m.variants.len()
        invariant
            i <= m.variants@.len(),
            spec_enum_exact(m.variants@, s@, 0) == spec_enum_exact(m.variants@, s@, i as int),
        decreases m.variants@.len() - i,
    {
        if variant_matches_x(&m.variants[i], s) {
            return Some(Value::EnumUnit(i));
        }
        i += 1;
    }
    let mut i: usize = 0;
    while i < m.variants.len()
        invariant
            i <= m.variants@.len(),
            spec_enum_exact(m.variants@, s@, 0) is None,
            spec_enum_other(m.variants@, 0) == spec_enum_other(m.variants@, i as int),
        decreases m.variants@.len() - i,
    {
        if m.variants[i].is_other {
            return Some(Value::EnumOther(i, crate::chars::clone_chars(s)));
        }
        i += 1;
    }
    None
}

/// Whether an attribute name addresses a field.
fn attr_matches(c: &Container, f: &StructField, n: &Vec<char>) -> (r: bool)
    ensures
        r == attr_name_matches(*c, *f, n@),
{
    match c.get_field_name(f) {
        Some(m) => {
            if crate::chars::matches_ci(n, &m) {
                return true;
            }
        },
        None => {},
    }
    let alias_from: usize = if f.name.is_some() {
        0
    } else {
        1
    };
    let ghost aliases = crate::schema::spec_alias_names(*f);
    proof {
        assert(forall|k: int|
            0 <= k < aliases.len() ==> aliases[k] == f.mapped_names@[k + alias_from]@);
        assert(aliases.len() == (if f.mapped_names@.len() >= alias_from {
            f.mapped_names@.len() - alias_from
        } else {
            0
        }));
    }
    let mut j: usize = alias_from;
    while j < f.mapped_names.len()
        invariant
            alias_from <= j,
            alias_from <= 1,
            aliases == crate::schema::spec_alias_names(*f),
            forall|k: int|
                0 <= k < aliases.len() ==> aliases[k] == f.mapped_names@[k + alias_from]@,
            aliases.len() == (if f.mapped_names@.len() >= alias_from {
                f.mapped_names@.len() - alias_from
            } else {
                0int
            }),
            forall|k: int| 0 <= k < j - alias_from ==> !ci_eq(n@, aliases[k]),
        decreases f.mapped_names@.len() - j,
    {
        if crate::chars::matches_ci(n, &f.mapped_names[j]) {
            proof {
                assert(ci_eq(n@, aliases[j - alias_from]));
            }
            return true;
        }
        j += 1;
    }
    proof {
        assert(forall|k: int| 0 <= k < aliases.len() ==> !ci_eq(n@, aliases[k]));
    }
    false
}

/// The first attribute field a name addresses.
fn find_attr(c: &Container, n: &Vec<char>) -> (r: Option<usize>)
    ensures
        (match r {
            Some(i) => spec_find_attr(*c, n@, 0) == Some(i as int) && i
                < c.struct_fields@.len(),
            None => spec_find_attr(*c, n@, 0) is None,
        }),
{
    let mut i: usize = 0;
    while i < c.struct_fields.len()
        invariant
            i <= c.struct_fields@.len(),
            spec_find_attr(*c, n@, 0) == spec_find_attr(*c, n@, i as int),
        decreases c.struct_fields@.len() - i,
    {
        let f = &c.struct_fields[i];
        if matches!(f.ty, EleType::Attr) && matches!(f.payload, FieldPayload::Scalar(_))
            && attr_matches(c, f, n) {
            return Some(i);
        }
        i += 1;
    }
    None
}

fn find_sfc(c: &Container, n: &Vec<char>) -> (r: Option<usize>)
    ensures
        (match r {
            Some(i) => spec_find_sfc(*c, n@, 0) == Some(i as int) && i < c.struct_fields@.len(),
            None => spec_find_sfc(*c, n@, 0) is None,
        }),
{
    let mut i: usize = 0;
    while i < c.struct_fields.len()
        invariant
            i <= c.struct_fields@.len(),
            spec_find_sfc(*c, n@, 0) == spec_find_sfc(*c, n@, i as int),
        decreases c.struct_fields@.len() - i,
    {
        let f = &c.struct_fields[i];
        if matches!(f.ty, EleType::SelfClosedChild) {
            match c.get_field_name(f) {
                Some(m) => {
                    if crate::chars::matches_ci(n, &m) {
                        return Some(i);
                    }
                },
                None => {},
            }
        }
        i += 1;
    }
    None
}

fn find_child(c: &Container, n: &Vec<char>) -> (r: Option<usize>)
    ensures
        (match r {
            Some(i) => spec_find_child(*c, n@, 0) == Some(i as int) && i
                < c.struct_fields@.len(),
            None => spec_find_child(*c, n@, 0) is None,
        }),
{
    let mut i: usize = 0;
    while i < c.struct_fields.len()
        invariant
            i <= c.struct_fields@.len(),
            spec_find_child(*c, n@, 0) == spec_find_child(*c, n@, i as int),
        decreases c.struct_fields@.len() - i,
    {
        let f = &c.struct_fields[i];
        if matches!(f.ty, EleType::Child) {
            match c.get_field_name(f) {
                Some(m) => {
                    if crate::chars::matches_ci(n, &m) {
                        return Some(i);
                    }
                },
                None => {},
            }
        }
        i += 1;
    }
    None
}

/// Whether a tag set knows a tag, case-insensitively.
fn tags_contain(tags: &Vec<Vec<char>>, t: &Vec<char>) -> (r: bool)
    ensures
        r == tags_contain_ci(crate::schema::names_view(tags@), t@),
{
    let mut i: usize = 0;
    while i < tags.len()
        invariant
            i <= tags@.len(),
            forall|j: int|
                0 <= j < i ==> !ci_eq(crate::schema::names_view(tags@)[j], t@),
        decreases tags@.len() - i,
    {
        if crate::chars::matches_ci(&tags[i], t) {
            proof {
                assert(ci_eq(crate::schema::names_view(tags@)[i as int], t@));
            }
            return true;
        }
        i += 1;
    }
    false
}

fn find_untag(c: &Container, n: &Vec<char>) -> (r: Option<usize>)
    ensures
        (match r {
            Some(i) => spec_find_untag(*c, n@, 0) == Some(i as int) && i
                < c.struct_fields@.len(),
            None => spec_find_untag(*c, n@, 0) is None,
        }),
{
    let mut i: usize = 0;
    while i < c.struct_fields.len()
        invariant
            i <= c.struct_fields@.len(),
            spec_find_untag(*c, n@, 0) == spec_find_untag(*c, n@, i as int),
        decreases c.struct_fields@.len() - i,
    {
        let f = &c.struct_fields[i];
        if matches!(f.ty, EleType::Untag | EleType::UntaggedEnum) {
            match &f.payload {
                FieldPayload::Nested(b) => {
                    let tags = b.children_tags();
                    if tags_contain(&tags, n) {
                        return Some(i);
                    }
                },
                _ => {},
            }
        }
        i += 1;
    }
    None
}

fn find_untag_struct(c: &Container, n: &Vec<char>) -> (r: Option<usize>)
    ensures
        (match r {
            Some(i) => spec_find_untag_struct(*c, n@, 0) == Some(i as int) && i
                < c.struct_fields@.len(),
            None => spec_find_untag_struct(*c, n@, 0) is None,
        }),
{
    let mut i: usize = 0;
    while i < c.struct_fields.len()
        invariant
            i <= c.struct_fields@.len(),
            spec_find_untag_struct(*c, n@, 0) == spec_find_untag_struct(*c, n@, i as int),
        decreases c.struct_fields@.len() - i,
    {
        let f = &c.struct_fields[i];
        if matches!(f.ty, EleType::UntaggedStruct) {
            match &f.payload {
                FieldPayload::Nested(b) => {
                    let tags = b.children_tags();
                    if tags_contain(&tags, n) {
                        return Some(i);
                    }
                },
                _ => {},
            }
        }
        i += 1;
    }
    None
}

/// Store a value in a field's state, by the field's arity.
fn assign(st: &mut Vec<FieldAcc>, i: usize, arity: &Arity, v: Value)
    requires
        i < old(st)@.len(),
    ensures
        accs_view(final(st)@) == spec_assign(accs_view(old(st)@), i as int, *arity, value_view(v)),
        final(st)@.len() == old(st)@.len(),
{
    let ghost v_view = value_view(v);
    match arity {
        Arity::List => {
            let mut acc = FieldAcc::Unset;
            st.set_and_swap(i, &mut acc);
            let mut items: Vec<Value> = match acc {
                FieldAcc::ListAcc(old_items) => old_items,
                _ => Vec::new(),
            };
            let ghost items0 = values_view(items@);
            let ghost pre = items@;
            proof {
                assert(items0 == (match accs_view(old(st)@)[i as int] {
                    FieldAccV::ListAcc(prev) => prev,
                    _ => Seq::<ValueV>::empty(),
                }));
            }
            items.push(v);
            proof {
                assert(items@.last() == v);
                crate::value::lemma_values_view_push(pre, items@.last());
                assert(values_view(items@) == items0.push(v_view));
            }
            st[i] = FieldAcc::ListAcc(items);
            proof {
                assert(accs_view(st@) =~= spec_assign(
                    accs_view(old(st)@),
                    i as int,
                    *arity,
                    v_view,
                ));
            }
        },
        Arity::Optional => {
            st[i] = FieldAcc::Val(Value::Opt(Some(Box::new(v))));
            proof {
                assert(accs_view(st@) =~= spec_assign(
                    accs_view(old(st)@),
                    i as int,
                    *arity,
                    v_view,
                ));
            }
        },
        _ => {
            st[i] = FieldAcc::Val(v);
            proof {
                assert(accs_view(st@) =~= spec_assign(
                    accs_view(old(st)@),
                    i as int,
                    *arity,
                    v_view,
                ));
            }
        },
    }
}

/// The starting state of a record.
fn init_state(c: &Container) -> (r: Vec<FieldAcc>)
    ensures
        accs_view(r@) == spec_init_state(*c),
        r@.len() == c.struct_fields@.len(),
{
    let mut r: Vec<FieldAcc> = Vec::new();
    let mut i: usize = 0;
    while i < c.struct_fields.len()
        invariant
            i <= c.struct_fields@.len(),
            r@.len() == i,
            forall|j: int| 0 <= j < i ==> acc_view(r@[j]) == spec_acc_init(c.struct_fields@[j]),
        decreases c.struct_fields@.len() - i,
    {
        let f = &c.struct_fields[i];
        let acc: FieldAcc = if matches!(f.ty, EleType::UntaggedStruct) {
            FieldAcc::Caps(Vec::new())
        } else if matches!(f.generic, Arity::List) {
            match &f.default {
                Some(Value::List(items)) => FieldAcc::ListAcc(crate::value::clone_values(items)),
                _ => FieldAcc::ListAcc(Vec::new()),
            }
        } else {
            FieldAcc::Unset
        };
        proof {
            assert(caps_view(Seq::<(Vec<char>, Unparsed)>::empty()) =~= Seq::<(
                Seq<char>,
                UnparsedV,
            )>::empty());
            assert(acc_view(acc) == spec_acc_init(c.struct_fields@[i as int]));
        }
        r.push(acc);
        i += 1;
    }
    proof {
        assert(accs_view(r@) =~= spec_init_state(*c));
    }
    r
}

/// Start list fields with a size hint over, sized from the hint.
fn vec_init(c: &Container, st: &mut Vec<FieldAcc>)
    requires
        old(st)@.len() == c.struct_fields@.len(),
    ensures
        accs_view(final(st)@) == spec_vec_init(*c, accs_view(old(st)@)),
        final(st)@.len() == old(st)@.len(),
{
    let mut i: usize = 0;
    while i < c.struct_fields.len()
        invariant
            i <= c.struct_fields@.len(),
            st@.len() == c.struct_fields@.len(),
            old(st)@.len() == c.struct_fields@.len(),
            forall|j: int|
                i <= j < st@.len() ==> acc_view(st@[j]) == acc_view(old(st)@[j]),
            forall|j: int|
                0 <= j < i ==> acc_view(st@[j]) == spec_vec_init(*c, accs_view(old(st)@))[j],
        decreases c.struct_fields@.len() - i,
    {
        let f = &c.struct_fields[i];
        if matches!(f.ty, EleType::Child) && matches!(f.generic, Arity::List) && f.vec_size.is_some() {
            let cap: usize = match &f.vec_size {
                Some(crate::schema::VecSize::Fixed(nv)) => *nv,
                Some(crate::schema::VecSize::FromAttr(ident)) => lookup_capacity(c, st, ident),
                None => 0,
            };
            st[i] = FieldAcc::ListAcc(Vec::with_capacity(cap));
            proof {
                assert(acc_view(st@[i as int]) == spec_vec_init(*c, accs_view(old(st)@))[i as int]);
            }
        } else {
            proof {
                assert(acc_view(st@[i as int]) == spec_vec_init(*c, accs_view(old(st)@))[i as int]);
            }
        }
        i += 1;
    }
    proof {
        assert(accs_view(st@) =~= spec_vec_init(*c, accs_view(old(st)@)));
    }
}

/// The capacity named by another field: its current numeric value,
/// capped so that a hostile count in the document cannot reserve
/// arbitrary memory. The capacity is a hint; the contracts say nothing
/// of it.
fn lookup_capacity(c: &Container, st: &Vec<FieldAcc>, ident: &Vec<char>) -> (r: usize)
{
    let mut j: usize = 0;
    while j < c.struct_fields.len()
        invariant
            j <= c.struct_fields@.len(),
        decreases c.struct_fields@.len() - j,
    {
        if crate::chars::chars_eq(&c.struct_fields[j].field_ident, ident) {
            if j < st.len() {
                match &st[j] {
                    FieldAcc::Val(Value::UInt(n)) => {
                        return if *n > 65536 {
                            65536
                        } else {
                            *n as usize
                        };
                    },
                    _ => {
                        match &c.struct_fields[j].default {
                            Some(Value::UInt(n)) => {
                                return if *n > 65536 {
                                    65536
                                } else {
                                    *n as usize
                                };
                            },
                            _ => {
                                return 0;
                            },
                        }
                    },
                }
            }
            return 0;
        }
        j += 1;
    }
    0
}

/// Apply the attribute list to the state, in order.
fn attr_pass(c: &Container, st: &mut Vec<FieldAcc>, attrs: &Vec<Attr>) -> (r: Result<
    (),
    XmlError,
>)
    requires
        old(st)@.len() == c.struct_fields@.len(),
    ensures
        (match r {
            Ok(()) => spec_attr_pass(*c, accs_view(old(st)@), attrs_view(attrs@), 0)
                == Ok::<Seq<FieldAccV>, ErrV>(accs_view(final(st)@)) && final(st)@.len() == old(
                st,
            )@.len(),
            Err(e) => spec_attr_pass(*c, accs_view(old(st)@), attrs_view(attrs@), 0)
                == Err::<Seq<FieldAccV>, ErrV>(err_view(e)),
        }),
{
    let ghost attrs_v = attrs_view(attrs@);
    let mut k: usize = 0;
    while k < attrs.len()
        invariant
            k <= attrs@.len(),
            attrs_v == attrs_view(attrs@),
            st@.len() == old(st)@.len(),
            old(st)@.len() == c.struct_fields@.len(),
            spec_attr_pass(*c, accs_view(old(st)@), attrs_v, 0) == spec_attr_pass(
                *c,
                accs_view(st@),
                attrs_v,
                k as int,
            ),
        decreases attrs@.len() - k,
    {
        let a = &attrs[k];
        proof {
            assert(attrs_v[k as int] == crate::events::attr_view(attrs@[k as int]));
        }
        match find_attr(c, &a.name) {
            None => {
                if c.deny_unknown {
                    return Err(XmlError::UnknownField(crate::chars::clone_chars(&a.name)));
                }
            },
            Some(i) => {
                let f = &c.struct_fields[i];
                match &f.payload {
                    FieldPayload::Scalar(kind) => {
                        match parse_scalar(kind, &a.value) {
                            None => {
                                return Err(XmlError::ScalarParseFailure);
                            },
                            Some(v) => {
                                assign(st, i, &f.generic, v);
                            },
                        }
                    },
                    _ => {},
                }
            },
        }
        k += 1;
    }
    Ok(())
}


/// Capture the raw events up to the end that closes the element.
fn cap_events_x(tag: &Vec<char>, events: &Vec<XmlEvent>, pos: usize, depth: usize) -> (r: (
    Vec<XmlEvent>,
    usize,
))
    requires
        depth <= pos,
    ensures
        spec_cap_events(tag@, evs_view(events@), pos as int, depth as int) == (
            evs_view(r.0@),
            r.1 as int,
        ),
    decreases events@.len() - pos,
{
    proof {
        assert(evs_view(events@).len() == events@.len());
    }
    if pos >= events.len() {
        let empty: Vec<XmlEvent> = Vec::new();
        proof {
            assert(evs_view(empty@) =~= Seq::<EventV>::empty());
        }
        return (empty, pos);
    }
    proof {
        assert(evs_view(events@)[pos as int] == crate::events::ev_view(events@[pos as int]));
    }
    let e = &events[pos];
    match e {
        XmlEvent::End { name } => {
            if depth == 0 && crate::chars::chars_eq(name, tag) {
                let empty: Vec<XmlEvent> = Vec::new();
                proof {
                    assert(evs_view(empty@) =~= Seq::<EventV>::empty());
                }
                (empty, pos + 1)
            } else {
                let d2: usize = if depth > 0 {
                    depth - 1
                } else {
                    0
                };
                let (mut rest, p) = cap_events_x(tag, events, pos + 1, d2);
                let ghost rest0 = rest@;
                let mut data: Vec<XmlEvent> = Vec::new();
                data.push(crate::events::clone_event(e));
                data.append(&mut rest);
                proof {
                    assert(evs_view(data@) =~= seq![evs_view(events@)[pos as int]] + evs_view(
                        rest0,
                    ));
                }
                (data, p)
            }
        },
        XmlEvent::Start { name, attrs } => {
            let (mut rest, p) = cap_events_x(tag, events, pos + 1, depth + 1);
            let ghost rest0 = rest@;
            let mut data: Vec<XmlEvent> = Vec::new();
            data.push(crate::events::clone_event(e));
            data.append(&mut rest);
            proof {
                assert(evs_view(data@) =~= seq![evs_view(events@)[pos as int]] + evs_view(rest0));
            }
            (data, p)
        },
        _ => {
            let (mut rest, p) = cap_events_x(tag, events, pos + 1, depth);
            let ghost rest0 = rest@;
            let mut data: Vec<XmlEvent> = Vec::new();
            data.push(crate::events::clone_event(e));
            data.append(&mut rest);
            proof {
                assert(evs_view(data@) =~= seq![evs_view(events@)[pos as int]] + evs_view(rest0));
            }
            (data, p)
        },
    }
}

/// Capture one element verbatim.
fn capture(
    tag: &Vec<char>,
    attrs: &Vec<Attr>,
    events: &Vec<XmlEvent>,
    pos: usize,
    is_empty: bool,
) -> (r: (Unparsed, usize))
    ensures
        spec_capture(tag@, attrs_view(attrs@), evs_view(events@), pos as int, is_empty) == (
            unparsed_view(r.0),
            r.1 as int,
        ),
{
    if is_empty {
        let u = Unparsed { attrs: crate::events::clone_attrs(attrs), data: Vec::new() };
        proof {
            assert(evs_view(Seq::<XmlEvent>::empty()) =~= Seq::<EventV>::empty());
        }
        (u, pos)
    } else {
        let (data, p) = cap_events_x(tag, events, pos, 0);
        let u = Unparsed { attrs: crate::events::clone_attrs(attrs), data };
        (u, p)
    }
}

/// The first text variant of a sum schema.
fn text_variant_idx(c: &Container) -> (r: Option<usize>)
    ensures
        (match r {
            Some(i) => spec_text_variant(*c, 0) == Some(i as int) && i < c.enum_variants@.len(),
            None => spec_text_variant(*c, 0) is None,
        }),
{
    let mut i: usize = 0;
    while i < c.enum_variants.len()
        invariant
            i <= c.enum_variants@.len(),
            spec_text_variant(*c, 0) == spec_text_variant(*c, i as int),
        decreases c.enum_variants@.len() - i,
    {
        if matches!(c.enum_variants[i].ele_type, EleType::Text) {
            return Some(i);
        }
        i += 1;
    }
    None
}

/// Offer non-whitespace text to the untagged-enum fields.
fn text_untags(c: &Container, st: &mut Vec<FieldAcc>, content: &Vec<char>) -> (r: Result<
    (),
    XmlError,
>)
    requires
        old(st)@.len() == c.struct_fields@.len(),
    ensures
        (match r {
            Ok(()) => spec_text_untags(*c, accs_view(old(st)@), content@, 0)
                == Ok::<Seq<FieldAccV>, ErrV>(accs_view(final(st)@)) && final(st)@.len() == old(
                st,
            )@.len(),
            Err(e) => spec_text_untags(*c, accs_view(old(st)@), content@, 0)
                == Err::<Seq<FieldAccV>, ErrV>(err_view(e)),
        }),
{
    let mut i: usize = 0;
    while i < c.struct_fields.len()
        invariant
            i <= c.struct_fields@.len(),
            st@.len() == old(st)@.len(),
            old(st)@.len() == c.struct_fields@.len(),
            spec_text_untags(*c, accs_view(old(st)@), content@, 0) == spec_text_untags(
                *c,
                accs_view(st@),
                content@,
                i as int,
            ),
        decreases c.struct_fields@.len() - i,
    {
        let f = &c.struct_fields[i];
        if matches!(f.ty, EleType::Untag | EleType::UntaggedEnum) {
            match &f.payload {
                FieldPayload::Nested(b) => {
                    match text_variant_idx(&**b) {
                        Some(tv) => {
                            match &b.enum_variants[tv].payload {
                                Some(FieldPayload::Scalar(kind)) => {
                                    match parse_scalar(kind, content) {
                                        Some(v) => {
                                            assign(
                                                st,
                                                i,
                                                &f.generic,
                                                Value::Variant(tv, Some(Box::new(v))),
                                            );
                                        },
                                        None => {
                                            return Err(XmlError::ScalarParseFailure);
                                        },
                                    }
                                },
                                _ => {},
                            }
                        },
                        None => {},
                    }
                },
                _ => {},
            }
        }
        i += 1;
    }
    Ok(())
}

/// The finished field values, from field `i` on.
fn finalize(c: &Container, st: &mut Vec<FieldAcc>, i: usize) -> (r: Result<Vec<Value>, XmlError>)
    ensures
        (match r {
            Ok(values) => spec_finalize(*c, accs_view(old(st)@), i as int) == Ok::<
                Seq<ValueV>,
                ErrV,
            >(values_view(values@)),
            Err(e) => spec_finalize(*c, accs_view(old(st)@), i as int) == Err::<Seq<ValueV>, ErrV>(
                err_view(e),
            ),
        }),
    decreases c.struct_fields@.len() - i,
{
    proof {
        assert(accs_view(st@).len() == st@.len());
    }
    if i >= c.struct_fields.len() {
        let empty: Vec<Value> = Vec::new();
        proof {
            assert(values_view(empty@) =~= Seq::<ValueV>::empty());
        }
        return Ok(empty);
    }
    let f = &c.struct_fields[i];
    let ghost st0 = st@;
    let head: Result<Value, XmlError> = if i < st.len() {
        let take_out = matches!(&st[i], FieldAcc::Val(_) | FieldAcc::ListAcc(_));
        if take_out {
            let mut acc = FieldAcc::Unset;
            st.set_and_swap(i, &mut acc);
            match acc {
                FieldAcc::Val(v) => Ok(v),
                FieldAcc::ListAcc(items) => Ok(Value::List(items)),
                _ => {
                    proof {
                        assert(false);
                    }
                    Err(XmlError::MissingRequiredField)
                },
            }
        } else {
            absent_value(f)
        }
    } else {
        absent_value(f)
    };
    proof {
        assert(st@.len() == st0.len());
        assert(forall|j: int| i < j < st@.len() ==> st@[j] == st0[j]);
        lemma_finalize_agree(*c, accs_view(st@), accs_view(st0), i + 1);
    }
    match head {
        Err(e) => Err(e),
        Ok(v) => {
            match finalize(c, st, i + 1) {
                Err(e) => Err(e),
                Ok(mut rest) => {
                    let ghost v_view = value_view(v);
                    let ghost rest0 = rest@;
                    let mut values: Vec<Value> = Vec::new();
                    values.push(v);
                    values.append(&mut rest);
                    proof {
                        crate::value::lemma_values_view_len(values@);
                        crate::value::lemma_values_view_len(rest0);
                        assert(values_view(values@) =~= seq![v_view] + values_view(rest0));
                    }
                    Ok(values)
                },
            }
        },
    }
}

/// A later suffix of the finish depends only on the states from there on.
proof fn lemma_finalize_agree(c: Container, s1: Seq<FieldAccV>, s2: Seq<FieldAccV>, i: int)
    requires
        s1.len() == s2.len(),
        forall|j: int| i <= j < s1.len() ==> s1[j] == s2[j],
    ensures
        spec_finalize(c, s1, i) == spec_finalize(c, s2, i),
    decreases c.struct_fields@.len() - i,
{
    if 0 <= i < c.struct_fields@.len() {
        lemma_finalize_agree(c, s1, s2, i + 1);
    }
}

/// The value of a field nothing was read for.
fn absent_value(f: &StructField) -> (r: Result<Value, XmlError>)
    ensures
        (match r {
            Ok(v) => spec_absent_value(*f) == Ok::<ValueV, ErrV>(value_view(v)),
            Err(e) => spec_absent_value(*f) == Err::<ValueV, ErrV>(err_view(e)),
        }),
{
    if matches!(f.ty, EleType::SelfClosedChild) {
        return Ok(Value::Bool(false));
    }
    match &f.default {
        Some(d) => Ok(crate::value::clone_value(d)),
        None => {
            if matches!(f.generic, Arity::Optional | Arity::Boxed) {
                Ok(Value::Opt(None))
            } else if matches!(f.generic, Arity::List) {
                let items: Vec<Value> = Vec::new();
                proof {
                    assert(values_view(items@) =~= Seq::<ValueV>::empty());
                }
                Ok(Value::List(items))
            } else {
                Err(XmlError::MissingRequiredField)
            }
        },
    }
}


/// Read one element's worth of value under a field payload.
fn de_element(
    p: &FieldPayload,
    tag: &Vec<char>,
    attrs: &Vec<Attr>,
    events: &Vec<XmlEvent>,
    pos: usize,
    is_empty: bool,
) -> (r: Result<(Value, usize), XmlError>)
    ensures
        (match r {
            Ok((v, p2)) => spec_de_element(
                *p,
                tag@,
                attrs_view(attrs@),
                evs_view(events@),
                pos as int,
                is_empty,
            ) == Ok::<(ValueV, int), ErrV>((value_view(v), p2 as int)),
            Err(e) => spec_de_element(
                *p,
                tag@,
                attrs_view(attrs@),
                evs_view(events@),
                pos as int,
                is_empty,
            ) == Err::<(ValueV, int), ErrV>(err_view(e)),
        }),
    decreases *p, 8int, 0int, 0int,
{
    match p {
        FieldPayload::Nested(b) => {
            match deserialize(&**b, tag, attrs, events, pos, is_empty) {
                Ok((v, p2)) => Ok((v, p2)),
                Err(e) => Err(e),
            }
        },
        FieldPayload::Opaque => {
            let (u, p2) = capture(tag, attrs, events, pos, is_empty);
            Ok((Value::Unparsed(u), p2))
        },
        _ => Err(XmlError::MissingRequiredField),
    }
}

/// The content loop of a record.
fn de_content(
    c: &Container,
    st: Vec<FieldAcc>,
    tag: &Vec<char>,
    events: &Vec<XmlEvent>,
    pos: usize,
) -> (r: Result<(Vec<FieldAcc>, usize), XmlError>)
    requires
        st@.len() == c.struct_fields@.len(),
    ensures
        (match r {
            Ok((st2, p2)) => spec_de_content(
                *c,
                accs_view(st@),
                tag@,
                evs_view(events@),
                pos as int,
            ) == Ok::<(Seq<FieldAccV>, int), ErrV>((accs_view(st2@), p2 as int)) && st2@.len()
                == c.struct_fields@.len(),
            Err(e) => spec_de_content(*c, accs_view(st@), tag@, evs_view(events@), pos as int)
                == Err::<(Seq<FieldAccV>, int), ErrV>(err_view(e)),
        }),
    decreases *c, 5int, events@.len() - pos, 1int,
{
    proof {
        assert(evs_view(events@).len() == events@.len());
    }
    if pos >= events.len() {
        return Ok((st, pos));
    }
    proof {
        assert(evs_view(events@)[pos as int] == crate::events::ev_view(events@[pos as int]));
    }
    let e = &events[pos];
    match e {
        XmlEvent::End { name } => {
            if crate::chars::chars_eq(name, tag) {
                Ok((st, pos + 1))
            } else {
                de_content(c, st, tag, events, pos + 1)
            }
        },
        XmlEvent::Start { name, attrs } => de_child(c, st, tag, events, pos, name, attrs, false),
        XmlEvent::Empty { name, attrs } => {
            match find_sfc(c, name) {
                Some(i) => {
                    let mut st = st;
                    let ghost st0 = st@;
                    st[i] = FieldAcc::Val(Value::Bool(true));
                    proof {
                        assert(accs_view(st@) =~= accs_view(st0).update(
                            i as int,
                            FieldAccV::Val(ValueV::Bool(true)),
                        ));
                    }
                    de_content(c, st, tag, events, pos + 1)
                },
                None => de_child(c, st, tag, events, pos, name, attrs, true),
            }
        },
        XmlEvent::Text { content } => {
            let mut st = st;
            let ghost st0 = st@;
            match crate::ser::text_field_index(c) {
                Some(i) => {
                    let f = &c.struct_fields[i];
                    match &f.payload {
                        FieldPayload::Scalar(kind) => {
                            match parse_scalar(kind, content) {
                                Some(v) => {
                                    let ar = match &f.generic {
                                        Arity::Optional => Arity::Optional,
                                        _ => Arity::Scalar,
                                    };
                                    proof {
                                        assert(ar == text_arity(
                                            c.struct_fields@[i as int].generic,
                                        ));
                                    }
                                    assign(&mut st, i, &ar, v);
                                },
                                None => {
                                    return Err(XmlError::ScalarParseFailure);
                                },
                            }
                        },
                        _ => {},
                    }
                },
                None => {
                    if !crate::chars::all_ws(content) {
                        match text_untags(c, &mut st, content) {
                            Ok(()) => {},
                            Err(e) => {
                                return Err(e);
                            },
                        }
                    }
                },
            }
            de_content(c, st, tag, events, pos + 1)
        },
    }
}

/// Dispatch one start or empty element inside a record.
#[verifier::rlimit(30)]
fn de_child(
    c: &Container,
    st: Vec<FieldAcc>,
    tag: &Vec<char>,
    events: &Vec<XmlEvent>,
    pos: usize,
    name: &Vec<char>,
    attrs: &Vec<Attr>,
    is_empty: bool,
) -> (r: Result<(Vec<FieldAcc>, usize), XmlError>)
    requires
        st@.len() == c.struct_fields@.len(),
        pos < events@.len(),
    ensures
        (match r {
            Ok((st2, p2)) => spec_de_child(
                *c,
                accs_view(st@),
                tag@,
                evs_view(events@),
                pos as int,
                name@,
                attrs_view(attrs@),
                is_empty,
            ) == Ok::<(Seq<FieldAccV>, int), ErrV>((accs_view(st2@), p2 as int)) && st2@.len()
                == c.struct_fields@.len(),
            Err(e) => spec_de_child(
                *c,
                accs_view(st@),
                tag@,
                evs_view(events@),
                pos as int,
                name@,
                attrs_view(attrs@),
                is_empty,
            ) == Err::<(Seq<FieldAccV>, int), ErrV>(err_view(e)),
        }),
    decreases *c, 5int, events@.len() - pos, 0int,
{
    let n = events.len();
    proof {
        assert(evs_view(events@).len() == events@.len());
        assert(pos < n);
    }
    match find_child(c, name) {
        Some(i) => {
            let f = &c.struct_fields[i];
            match de_element(&f.payload, name, attrs, events, pos + 1, is_empty) {
                Err(e) => Err(e),
                Ok((v, p2)) => {
                    let mut st = st;
                    assign(&mut st, i, &f.generic, v);
                    let p3: usize = if p2 < pos + 1 {
                        pos + 1
                    } else if p2 > events.len() {
                        events.len()
                    } else {
                        p2
                    };
                    de_content(c, st, tag, events, p3)
                },
            }
        },
        None => {
            match find_untag(c, name) {
                Some(i) => {
                    let f = &c.struct_fields[i];
                    match de_element(&f.payload, name, attrs, events, pos + 1, is_empty) {
                        Err(e) => Err(e),
                        Ok((v, p2)) => {
                            let mut st = st;
                            assign(&mut st, i, &f.generic, v);
                            let p3: usize = if p2 < pos + 1 {
                                pos + 1
                            } else if p2 > events.len() {
                                events.len()
                            } else {
                                p2
                            };
                            de_content(c, st, tag, events, p3)
                        },
                    }
                },
                None => {
                    match find_untag_struct(c, name) {
                        Some(i) => {
                            let (u, p2) = capture(name, attrs, events, pos + 1, is_empty);
                            let mut caps: Vec<(Vec<char>, Unparsed)> = match &st[i] {
                                FieldAcc::Caps(old_caps) => clone_caps(old_caps),
                                _ => Vec::new(),
                            };
                            let ghost caps0 = caps_view(caps@);
                            proof {
                                assert(caps0 == (match accs_view(st@)[i as int] {
                                    FieldAccV::Caps(prev) => prev,
                                    _ => Seq::<(Seq<char>, UnparsedV)>::empty(),
                                }));
                            }
                            let ghost u_view = unparsed_view(u);
                            caps.push((crate::chars::clone_chars(name), u));
                            proof {
                                assert(caps_view(caps@) =~= caps0.push((name@, u_view)));
                            }
                            let mut st = st;
                            let ghost st0 = st@;
                            st[i] = FieldAcc::Caps(caps);
                            proof {
                                assert(accs_view(st@) =~= accs_view(st0).update(
                                    i as int,
                                    FieldAccV::Caps(caps0.push((name@, u_view))),
                                ));
                            }
                            let p3: usize = if p2 < pos + 1 {
                                pos + 1
                            } else if p2 > events.len() {
                                events.len()
                            } else {
                                p2
                            };
                            de_content(c, st, tag, events, p3)
                        },
                        None => {
                            if c.deny_unknown {
                                Err(XmlError::UnknownField(crate::chars::clone_chars(name)))
                            } else {
                                de_content(c, st, tag, events, pos + 1)
                            }
                        },
                    }
                },
            }
        },
    }
}

/// A copy of a capture buffer.
fn clone_caps(caps: &Vec<(Vec<char>, Unparsed)>) -> (r: Vec<(Vec<char>, Unparsed)>)
    ensures
        caps_view(r@) == caps_view(caps@),
{
    let mut r: Vec<(Vec<char>, Unparsed)> = Vec::new();
    let mut i: usize = 0;
    while i < caps.len()
        invariant
            i <= caps@.len(),
            r@.len() == i,
            forall|j: int| 0 <= j < i ==> cap_view(r@[j]) == cap_view(caps@[j]),
        decreases caps@.len() - i,
    {
        r.push(
            (crate::chars::clone_chars(&caps[i].0), crate::value::clone_unparsed(&caps[i].1)),
        );
        i += 1;
    }
    proof {
        assert(caps_view(r@) =~= caps_view(caps@));
    }
    r
}

/// Replay the captures of an untagged record field through its schema.
fn replay_fold(
    b: &Container,
    st: Vec<FieldAcc>,
    caps: &Vec<(Vec<char>, Unparsed)>,
    j: usize,
) -> (r: Result<Vec<FieldAcc>, XmlError>)
    requires
        st@.len() == b.struct_fields@.len(),
    ensures
        (match r {
            Ok(st2) => spec_replay_fold(*b, accs_view(st@), caps_view(caps@), j as int)
                == Ok::<Seq<FieldAccV>, ErrV>(accs_view(st2@)) && st2@.len()
                == b.struct_fields@.len(),
            Err(e) => spec_replay_fold(*b, accs_view(st@), caps_view(caps@), j as int)
                == Err::<Seq<FieldAccV>, ErrV>(err_view(e)),
        }),
    decreases *b, 6int, caps@.len() - j, 0int,
{
    proof {
        assert(caps_view(caps@).len() == caps@.len());
    }
    if j >= caps.len() {
        return Ok(st);
    }
    proof {
        assert(caps_view(caps@)[j as int] == cap_view(caps@[j as int]));
    }
    let t = &caps[j].0;
    let u = &caps[j].1;
    match find_child(b, t) {
        Some(i) => {
            let f = &b.struct_fields[i];
            match de_element(&f.payload, t, &u.attrs, &u.data, 0, u.data.len() == 0) {
                Err(e) => Err(e),
                Ok((v, _)) => {
                    let mut st = st;
                    assign(&mut st, i, &f.generic, v);
                    replay_fold(b, st, caps, j + 1)
                },
            }
        },
        None => replay_fold(b, st, caps, j + 1),
    }
}

fn replay(b: &Container, caps: &Vec<(Vec<char>, Unparsed)>) -> (r: Result<Value, XmlError>)
    ensures
        (match r {
            Ok(v) => spec_replay(*b, caps_view(caps@)) == Ok::<ValueV, ErrV>(value_view(v)),
            Err(e) => spec_replay(*b, caps_view(caps@)) == Err::<ValueV, ErrV>(err_view(e)),
        }),
    decreases *b, 7int, 0int, 0int,
{
    let st = init_state(b);
    match replay_fold(b, st, caps, 0) {
        Err(e) => Err(e),
        Ok(mut st2) => {
            match finalize(b, &mut st2, 0) {
                Err(e) => Err(e),
                Ok(values) => Ok(Value::Record(values)),
            }
        },
    }
}

/// Resolve the untagged record fields once the content is consumed.
fn resolve_untagged(c: &Container, st: Vec<FieldAcc>, i: usize) -> (r: Result<
    Vec<FieldAcc>,
    XmlError,
>)
    requires
        st@.len() == c.struct_fields@.len(),
    ensures
        (match r {
            Ok(st2) => spec_resolve_untagged(*c, accs_view(st@), i as int)
                == Ok::<Seq<FieldAccV>, ErrV>(accs_view(st2@)) && st2@.len()
                == c.struct_fields@.len(),
            Err(e) => spec_resolve_untagged(*c, accs_view(st@), i as int)
                == Err::<Seq<FieldAccV>, ErrV>(err_view(e)),
        }),
    decreases *c, 8int, c.struct_fields@.len() - i, 0int,
{
    if i >= c.struct_fields.len() {
        return Ok(st);
    }
    let f = &c.struct_fields[i];
    let mut st = st;
    if matches!(f.ty, EleType::UntaggedStruct) {
        let do_replay: bool = match (&f.payload, &st[i]) {
            (FieldPayload::Nested(_), FieldAcc::Caps(caps)) => caps.len() > 0,
            _ => false,
        };
        if do_replay {
            let caps = match &st[i] {
                FieldAcc::Caps(caps) => clone_caps(caps),
                _ => Vec::new(),
            };
            match &f.payload {
                FieldPayload::Nested(b) => {
                    match replay(&**b, &caps) {
                        Err(e) => {
                            return Err(e);
                        },
                        Ok(v) => {
                            let ar = match &f.generic {
                                Arity::Optional => Arity::Optional,
                                _ => Arity::Scalar,
                            };
                            proof {
                                assert(ar == untag_struct_arity(
                                    c.struct_fields@[i as int].generic,
                                ));
                            }
                            assign(&mut st, i, &ar, v);
                        },
                    }
                },
                _ => {},
            }
        }
    }
    resolve_untagged(c, st, i + 1)
}

/// The first matching variant for a tag.
fn enum_match(c: &Container, tag: &Vec<char>) -> (r: Option<usize>)
    ensures
        (match r {
            Some(i) => spec_enum_match(*c, tag@, 0) == Some(i as int) && i
                < c.enum_variants@.len(),
            None => spec_enum_match(*c, tag@, 0) is None,
        }),
{
    let mut i: usize = 0;
    while i < c.enum_variants.len()
        invariant
            i <= c.enum_variants@.len(),
            spec_enum_match(*c, tag@, 0) == spec_enum_match(*c, tag@, i as int),
        decreases c.enum_variants@.len() - i,
    {
        let v = &c.enum_variants[i];
        if !matches!(v.ele_type, EleType::Text) {
            match &v.name {
                Some(n) => {
                    if crate::chars::matches_ci(n, tag) {
                        return Some(i);
                    }
                },
                None => {},
            }
        }
        i += 1;
    }
    None
}

/// Build the matched variant.
fn enum_build(
    c: &Container,
    idx: usize,
    attrs: &Vec<Attr>,
    events: &Vec<XmlEvent>,
    pos: usize,
    is_empty: bool,
) -> (r: Result<(Value, usize), XmlError>)
    requires
        idx < c.enum_variants@.len(),
    ensures
        (match r {
            Ok((v, p2)) => spec_enum_build(
                *c,
                idx as int,
                attrs_view(attrs@),
                evs_view(events@),
                pos as int,
                is_empty,
            ) == Ok::<(ValueV, int), ErrV>((value_view(v), p2 as int)),
            Err(e) => spec_enum_build(
                *c,
                idx as int,
                attrs_view(attrs@),
                evs_view(events@),
                pos as int,
                is_empty,
            ) == Err::<(ValueV, int), ErrV>(err_view(e)),
        }),
    decreases *c, 4int, 0int, 0int,
{
    let var = &c.enum_variants[idx];
    let vname: Vec<char> = match &var.name {
        Some(n) => crate::chars::clone_chars(n),
        None => Vec::new(),
    };
    match &var.payload {
        Some(p) => {
            match de_element(p, &vname, attrs, events, pos, is_empty) {
                Err(e) => Err(e),
                Ok((v, p2)) => Ok((Value::Variant(idx, Some(Box::new(v))), p2)),
            }
        },
        None => Ok((Value::Variant(idx, None), pos)),
    }
}

/// The fallback scan of a sum type.
fn enum_scan(c: &Container, tag: &Vec<char>, events: &Vec<XmlEvent>, pos: usize) -> (r: Result<
    (Value, usize),
    XmlError,
>)
    ensures
        (match r {
            Ok((v, p2)) => spec_enum_scan(*c, tag@, evs_view(events@), pos as int) == Ok::<
                (ValueV, int),
                ErrV,
            >((value_view(v), p2 as int)),
            Err(e) => spec_enum_scan(*c, tag@, evs_view(events@), pos as int) == Err::<
                (ValueV, int),
                ErrV,
            >(err_view(e)),
        }),
    decreases *c, 5int, events@.len() - pos, 0int,
{
    proof {
        assert(evs_view(events@).len() == events@.len());
    }
    if pos >= events.len() {
        return Err(XmlError::MissingRequiredField);
    }
    proof {
        assert(evs_view(events@)[pos as int] == crate::events::ev_view(events@[pos as int]));
    }
    let e = &events[pos];
    match e {
        XmlEvent::End { name } => {
            if crate::chars::chars_eq(name, tag) {
                Err(XmlError::MissingRequiredField)
            } else {
                enum_scan(c, tag, events, pos + 1)
            }
        },
        XmlEvent::Start { name, attrs } => {
            match enum_match(c, name) {
                Some(idx) => enum_build(c, idx, attrs, events, pos + 1, false),
                None => enum_scan(c, tag, events, pos + 1),
            }
        },
        XmlEvent::Empty { name, attrs } => {
            match enum_match(c, name) {
                Some(idx) => enum_build(c, idx, attrs, events, pos + 1, true),
                None => enum_scan(c, tag, events, pos + 1),
            }
        },
        _ => enum_scan(c, tag, events, pos + 1),
    }
}

/// Read one value under a schema, positioned after the element's start.
pub fn deserialize(
    c: &Container,
    tag: &Vec<char>,
    attrs: &Vec<Attr>,
    events: &Vec<XmlEvent>,
    pos: usize,
    is_empty: bool,
) -> (r: Result<(Value, usize), XmlError>)
    ensures
        (match r {
            Ok((v, p2)) => spec_de(
                *c,
                tag@,
                attrs_view(attrs@),
                evs_view(events@),
                pos as int,
                is_empty,
            ) == Ok::<(ValueV, int), ErrV>((value_view(v), p2 as int)),
            Err(e) => spec_de(
                *c,
                tag@,
                attrs_view(attrs@),
                evs_view(events@),
                pos as int,
                is_empty,
            ) == Err::<(ValueV, int), ErrV>(err_view(e)),
        }),
    decreases *c, 9int, 0int, 0int,
{
    if c.enum_variants.len() > 0 {
        match enum_match(c, tag) {
            Some(idx) => enum_build(c, idx, attrs, events, pos, is_empty),
            None => enum_scan(c, tag, events, pos),
        }
    } else {
        if c.roots.len() > 0 {
            let roots = c.get_root_names();
            proof {
                assert(crate::schema::names_view(roots@) =~= spec_root_names(*c));
            }
            if !tags_contain(&roots, tag) {
                return Err(XmlError::UnexpectedRoot);
            }
        }
        let mut st = init_state(c);
        match attr_pass(c, &mut st, attrs) {
            Err(e) => {
                return Err(e);
            },
            Ok(()) => {},
        }
        vec_init(c, &mut st);
        let after: Result<(Vec<FieldAcc>, usize), XmlError> = if is_empty {
            Ok((st, pos))
        } else {
            de_content(c, st, tag, events, pos)
        };
        match after {
            Err(e) => Err(e),
            Ok((st3, p2)) => {
                match resolve_untagged(c, st3, 0) {
                    Err(e) => Err(e),
                    Ok(mut st4) => {
                        match finalize(c, &mut st4, 0) {
                            Err(e) => Err(e),
                            Ok(values) => Ok((Value::Record(values), p2)),
                        }
                    },
                }
            },
        }
    }
}


impl Unparsed {
    /// Replay this capture under a tag, appending its events verbatim: a
    /// capture without content replays as a self-closing element.
    pub fn serialize(&self, tag: &Vec<char>, out: &mut Vec<XmlEvent>)
        ensures
            evs_view(final(out)@) == evs_view(old(out)@) + crate::ser::spec_emit(
                attrs_view(self.attrs@),
                evs_view(self.data@),
                tag@,
            ),
    {
        let ghost before = out@;
        if self.data.len() > 0 {
            out.push(
                XmlEvent::Start {
                    name: crate::chars::clone_chars(tag),
                    attrs: crate::events::clone_attrs(&self.attrs),
                },
            );
            let mut data = crate::events::clone_events(&self.data);
            out.append(&mut data);
            out.push(XmlEvent::End { name: crate::chars::clone_chars(tag) });
            proof {
                assert(evs_view(out@) =~= evs_view(before) + crate::ser::spec_emit(
                    attrs_view(self.attrs@),
                    evs_view(self.data@),
                    tag@,
                ));
            }
        } else {
            out.push(
                XmlEvent::Empty {
                    name: crate::chars::clone_chars(tag),
                    attrs: crate::events::clone_attrs(&self.attrs),
                },
            );
            proof {
                assert(evs_view(out@) =~= evs_view(before) + crate::ser::spec_emit(
                    attrs_view(self.attrs@),
                    evs_view(self.data@),
                    tag@,
                ));
            }
        }
    }

    /// Capture an element verbatim from the stream: its attributes and,
    /// unless it was self-closing, its raw content events up to the end
    /// that closes it.
    pub fn deserialize(
        tag: &Vec<char>,
        attrs: &Vec<Attr>,
        events: &Vec<XmlEvent>,
        pos: usize,
        is_empty: bool,
    ) -> (r: (Unparsed, usize))
        ensures
            spec_capture(tag@, attrs_view(attrs@), evs_view(events@), pos as int, is_empty) == (
                unparsed_view(r.0),
                r.1 as int,
            ),
    {
        capture(tag, attrs, events, pos, is_empty)
    }

    /// Parse this capture as a value of the given schema, replaying its
    /// attributes and content.
    pub fn deserialize_to(&self, c: &Container) -> (r: Result<Value, XmlError>)
        ensures
            (match r {
                Ok(v) => spec_de(
                    *c,
                    "tmptag"@,
                    attrs_view(self.attrs@),
                    evs_view(self.data@),
                    0,
                    self.data@.len() == 0,
                ) matches Ok((vv, _)) && vv == value_view(v),
                Err(e) => spec_de(
                    *c,
                    "tmptag"@,
                    attrs_view(self.attrs@),
                    evs_view(self.data@),
                    0,
                    self.data@.len() == 0,
                ) == Err::<(ValueV, int), ErrV>(err_view(e)),
            }),
    {
        let tag = crate::chars::str_chars("tmptag");
        let is_empty = self.data.len() == 0;
        match deserialize(c, &tag, &self.attrs, &self.data, 0, is_empty) {
            Ok((v, _)) => Ok(v),
            Err(e) => Err(e),
        }
    }
}

} // verus!
