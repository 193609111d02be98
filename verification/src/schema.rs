//! The schema model: an immutable description of how a mapped type
//! relates to a document. A container describes either a record, through
//! ordered field descriptors, or a sum type, through ordered variant
//! descriptors, together with container-level metadata: accepted root
//! tags, namespaces, the unknown-field policy and the rename policy.
use crate::case::{convert_spec, Case};
use crate::chars::ci_eq;
use crate::value::Value;
use vstd::prelude::*;

verus! {

/// The mapping kind of a field: where in the document its value lives.
#[derive(Debug, Clone)]
pub enum EleType {
    /// An attribute on the element.
    Attr,
    /// A nested element with a fixed tag.
    Child,
    /// The text content of the element.
    Text,
    /// A boolean marker: present as an empty child element when true.
    SelfClosedChild,
    /// An untagged child resolved through the nested type's tags.
    Untag,
    /// The same resolution, under its newer name.
    UntaggedEnum,
    /// An untagged record child, buffered and replayed.
    UntaggedStruct,
}

/// The collection arity of a field.
#[derive(Debug, Clone)]
pub enum Arity {
    Scalar,
    Optional,
    /// Heap-indirected scalar; identical to `Scalar` for mapping purposes.
    Boxed,
    List,
}

/// One variant of a string-valued enum: the text it is written as, the
/// further texts it answers to, and whether it is the catch-all.
#[derive(Debug, Clone)]
pub struct EnumValueVariant {
    pub value: Vec<char>,
    pub mapped: Vec<Vec<char>>,
    pub is_other: bool,
}

/// A string-valued enum: scanned in order, first match wins.
#[derive(Debug, Clone)]
pub struct EnumMapping {
    pub variants: Vec<EnumValueVariant>,
}

/// The scalar format of an attribute or text value.
#[derive(Debug, Clone)]
pub enum ScalarKind {
    SBool,
    SString,
    /// A decimal number kept in its lexical form.
    SDecimal,
    SU8,
    SU16,
    SU32,
    SU64,
    SI8,
    SI16,
    SI32,
    SI64,
    SEnum(EnumMapping),
}

/// What a field's value is made of.
#[derive(Debug)]
pub enum FieldPayload {
    /// A scalar parsed and rendered by a `ScalarKind`.
    Scalar(ScalarKind),
    /// A nested mapped type with its own schema.
    Nested(Box<Container>),
    /// An opaque capture, kept verbatim.
    Opaque,
    /// The presence marker of a self-closing child.
    Flag,
}

/// The size hint for a list field.
#[derive(Debug, Clone)]
pub enum VecSize {
    Fixed(usize),
    /// Take the capacity from the named attribute field's value.
    FromAttr(Vec<char>),
}

/// One field of a record schema.
#[derive(Debug)]
pub struct StructField {
    pub ty: EleType,
    /// The explicit name, when one was given.
    pub name: Option<Vec<char>>,
    /// Further accepted names; the first stands in for a missing `name`.
    pub mapped_names: Vec<Vec<char>>,
    /// The field's identifier, the base for policy-derived names.
    pub field_ident: Vec<char>,
    pub skip_serializing: bool,
    /// The default value, when the field has a provider.
    pub default: Option<Value>,
    pub vec_size: Option<VecSize>,
    pub generic: Arity,
    pub payload: FieldPayload,
}

/// One variant of a sum schema.
#[derive(Debug)]
pub struct EnumVariant {
    /// The discriminator tag; absent only for the text variant.
    pub name: Option<Vec<char>>,
    /// `Child` for tagged variants, `Text` for the text variant.
    pub ele_type: EleType,
    /// The payload, absent for unit variants.
    pub payload: Option<FieldPayload>,
}

/// The schema of one mapped type.
#[derive(Debug)]
pub struct Container {
    pub struct_fields: Vec<StructField>,
    pub enum_variants: Vec<EnumVariant>,
    pub with_ns: Option<Vec<char>>,
    pub custom_ns: Vec<(Vec<char>, Vec<char>)>,
    pub roots: Vec<Vec<char>>,
    pub deny_unknown: bool,
    pub rename_all: Option<Case>,
}

/// The resolved name of a field: the explicit name, else the first
/// mapped name, else the policy-converted identifier.
pub open spec fn spec_field_name(c: Container, f: StructField) -> Option<Seq<char>> {
    if f.name is Some {
        Some(f.name->0@)
    } else if f.mapped_names.len() > 0 {
        Some(f.mapped_names[0]@)
    } else {
        match c.rename_all {
            Some(case) => Some(convert_spec(case, f.field_ident@)),
            None => None,
        }
    }
}

/// The root tags in their serialized form: the rename policy applied.
pub open spec fn spec_root_names(c: Container) -> Seq<Seq<char>> {
    match c.rename_all {
        Some(case) => c.roots@.map_values(|r: Vec<char>| convert_spec(case, r@)),
        None => c.roots@.map_values(|r: Vec<char>| r@),
    }
}

/// The further names an attribute field answers to, beside its resolved
/// name: all mapped names when an explicit name exists, else those after
/// the first.
pub open spec fn spec_alias_names(f: StructField) -> Seq<Seq<char>> {
    if f.name is Some {
        f.mapped_names@.map_values(|n: Vec<char>| n@)
    } else if f.mapped_names.len() > 0 {
        f.mapped_names@.skip(1).map_values(|n: Vec<char>| n@)
    } else {
        Seq::empty()
    }
}

/// Whether an attribute name addresses this field: it equals the
/// resolved name or one of the aliases, compared case-insensitively.
pub open spec fn attr_name_matches(c: Container, f: StructField, n: Seq<char>) -> bool {
    (match spec_field_name(c, f) {
        Some(fname) => ci_eq(n, fname),
        None => false,
    }) || (exists|i: int| 0 <= i < spec_alias_names(f).len() && ci_eq(n, spec_alias_names(f)[i]))
}

/// The child tags a container answers to: the resolved names of its
/// child fields and, through untagged children, those of their nested
/// types; for a sum type, the variant tags.
pub open spec fn spec_children_tags(c: Container) -> Seq<Seq<char>>
    decreases c, c.struct_fields@.len() + c.enum_variants@.len() + 1int,
{
    if c.enum_variants.len() > 0 {
        spec_variant_tags(c.enum_variants@)
    } else {
        spec_tags_from(c, 0)
    }
}

/// The tags of the variants that carry one.
pub open spec fn spec_variant_tags(vs: Seq<EnumVariant>) -> Seq<Seq<char>>
    decreases vs.len(),
{
    if vs.len() == 0 {
        Seq::empty()
    } else {
        let head: Seq<Seq<char>> = match vs[0] {
            EnumVariant { name: Some(n), ele_type: EleType::Child, payload: _ } => seq![n@],
            _ => Seq::empty(),
        };
        head + spec_variant_tags(vs.drop_first())
    }
}

/// The tags contributed by the fields from `i` on.
pub open spec fn spec_tags_from(c: Container, i: int) -> Seq<Seq<char>>
    decreases c, c.struct_fields@.len() - i,
{
    if i < 0 || i >= c.struct_fields@.len() {
        Seq::empty()
    } else {
        let f = c.struct_fields@[i];
        let head: Seq<Seq<char>> = match f.ty {
            EleType::Child => match spec_field_name(c, f) {
                Some(n) => seq![n],
                None => Seq::empty(),
            },
            EleType::Untag | EleType::UntaggedEnum => match f.payload {
                FieldPayload::Nested(b) => spec_children_tags(*b),
                _ => Seq::empty(),
            },
            _ => Seq::empty(),
        };
        head + spec_tags_from(c, i + 1)
    }
}

/// Whether a tag occurs in a tag set, case-insensitively.
pub open spec fn tags_contain_ci(tags: Seq<Seq<char>>, t: Seq<char>) -> bool {
    exists|i: int| 0 <= i < tags.len() && ci_eq(tags[i], t)
}

/// A field with no value and no default is missing when absent.
pub open spec fn spec_is_required(f: StructField) -> bool {
    if f.ty is Untag || f.ty is UntaggedEnum {
        f.generic is Scalar
    } else {
        f.default is None && f.generic is Scalar && !(f.ty is SelfClosedChild)
    }
}

impl StructField {
    /// Whether this field must receive a value.
    pub fn is_required(&self) -> (r: bool)
        ensures
            r == spec_is_required(*self),
    {
        if matches!(self.ty, EleType::Untag | EleType::UntaggedEnum) {
            return matches!(self.generic, Arity::Scalar);
        }
        self.default.is_none() && matches!(self.generic, Arity::Scalar) && !matches!(
            self.ty,
            EleType::SelfClosedChild,
        )
    }

    /// An untagged field carries no name of its own.
    pub fn validate(&self) -> (r: Result<(), ContainerError>)
        ensures
            r is Ok <==> spec_field_named_ok(*self),
    {
        let untagged = matches!(
            self.ty,
            EleType::Untag | EleType::UntaggedEnum | EleType::UntaggedStruct,
        );
        if untagged && self.name.is_some() {
            return Err(
                ContainerError::InvalidFieldAttributes("untagged types doesn't need a name".to_owned()),
            );
        }
        Ok(())
    }
}

/// An untagged field carries no name of its own.
pub open spec fn spec_field_named_ok(f: StructField) -> bool {
    (f.ty is Untag || f.ty is UntaggedEnum || f.ty is UntaggedStruct) ==> f.name is None
}

/// What can be wrong with a schema.
#[derive(Debug, Clone)]
pub enum ContainerError {
    UnionNotSupported,
    InvalidVariantAttributes(String),
    InvalidFieldAttributes(String),
    InvalidContainerAttributes(String),
    MissingTypeAttribute(String),
    InvalidTypeValue(String),
    InvalidAttributeName(String, String),
}

impl Container {
    /// Whether this schema describes a sum type.
    pub fn is_enum(&self) -> (r: bool)
        ensures
            r == (self.enum_variants@.len() > 0),
    {
        self.enum_variants.len() > 0
    }

    /// The resolved name of a field.
    pub fn get_field_name(&self, f: &StructField) -> (r: Option<Vec<char>>)
        ensures
            (match r {
                Some(n) => spec_field_name(*self, *f) == Some(n@),
                None => spec_field_name(*self, *f) is None,
            }),
    {
        match &f.name {
            Some(n) => Some(crate::chars::clone_chars(n)),
            None => {
                if f.mapped_names.len() > 0 {
                    Some(crate::chars::clone_chars(&f.mapped_names[0]))
                } else {
                    match &self.rename_all {
                        Some(case) => Some(case.transform(&f.field_ident)),
                        None => None,
                    }
                }
            },
        }
    }

    /// The root tags in their serialized form.
    pub fn get_root_names(&self) -> (r: Vec<Vec<char>>)
        ensures
            r@.len() == spec_root_names(*self).len(),
            forall|i: int| 0 <= i < r@.len() ==> r@[i]@ == spec_root_names(*self)[i],
    {
        let mut out: Vec<Vec<char>> = Vec::new();
        let mut i: usize = 0;
        while i < self.roots.len()
            invariant
                i <= self.roots@.len(),
                spec_root_names(*self).len() == self.roots@.len(),
                out@.len() == i,
                forall|j: int| 0 <= j < i ==> out@[j]@ == spec_root_names(*self)[j],
            decreases self.roots@.len() - i,
        {
            let name = match &self.rename_all {
                Some(case) => case.transform(&self.roots[i]),
                None => crate::chars::clone_chars(&self.roots[i]),
            };
            out.push(name);
            i += 1;
        }
        out
    }

    /// The child tags this schema answers to.
    pub fn children_tags(&self) -> (r: Vec<Vec<char>>)
        ensures
            names_view(r@) == spec_children_tags(*self),
        decreases *self, self.struct_fields@.len() + self.enum_variants@.len() + 1int,
    {
        if self.enum_variants.len() > 0 {
            let mut out: Vec<Vec<char>> = Vec::new();
            let mut i: usize = 0;
            proof {
                assert(self.enum_variants@.take(0int) =~= Seq::<EnumVariant>::empty());
                assert(names_view(out@) =~= Seq::<Seq<char>>::empty());
            }
            while i < self.enum_variants.len()
                invariant
                    i <= self.enum_variants@.len(),
                    names_view(out@) == spec_variant_tags(self.enum_variants@.take(i as int)),
                decreases self.enum_variants@.len() - i,
            {
                proof {
                    lemma_variant_tags_take(self.enum_variants@, i as int);
                }
                let v = &self.enum_variants[i];
                match (&v.name, &v.ele_type) {
                    (Some(n), EleType::Child) => {
                        let ghost before = out@;
                        out.push(crate::chars::clone_chars(n));
                        proof {
                            assert(names_view(out@) =~= names_view(before) + seq![n@]);
                        }
                    },
                    _ => {
                        proof {
                            assert(names_view(out@) + Seq::<Seq<char>>::empty() =~= names_view(
                                out@,
                            ));
                        }
                    },
                }
                i += 1;
            }
            proof {
                assert(self.enum_variants@.take(self.enum_variants@.len() as int)
                    =~= self.enum_variants@);
            }
            out
        } else {
            let mut out: Vec<Vec<char>> = Vec::new();
            let mut i: usize = 0;
            proof {
                assert(names_view(out@) =~= Seq::<Seq<char>>::empty());
                assert(names_view(out@) + spec_tags_from(*self, 0) =~= spec_tags_from(*self, 0));
            }
            while i < self.struct_fields.len()
                invariant
                    i <= self.struct_fields@.len(),
                    names_view(out@) + spec_tags_from(*self, i as int) == spec_tags_from(*self, 0),
                decreases self.struct_fields@.len() - i,
            {
                let ghost head = (match self.struct_fields@[i as int].ty {
                    EleType::Child => match spec_field_name(*self, self.struct_fields@[i as int]) {
                        Some(n) => seq![n],
                        None => Seq::<Seq<char>>::empty(),
                    },
                    EleType::Untag | EleType::UntaggedEnum => match self.struct_fields@[
                        i as int].payload {
                        FieldPayload::Nested(b) => spec_children_tags(*b),
                        _ => Seq::<Seq<char>>::empty(),
                    },
                    _ => Seq::<Seq<char>>::empty(),
                });
                proof {
                    assert(spec_tags_from(*self, i as int) == head + spec_tags_from(
                        *self,
                        i + 1,
                    ));
                }
                let ghost before = out@;
                let f = &self.struct_fields[i];
                match f.ty {
                    EleType::Child => {
                        match self.get_field_name(f) {
                            Some(n) => {
                                out.push(n);
                                proof {
                                    assert(names_view(out@) =~= names_view(before) + head);
                                }
                            },
                            None => {
                                proof {
                                    assert(names_view(out@) =~= names_view(before) + head);
                                }
                            },
                        }
                    },
                    EleType::Untag | EleType::UntaggedEnum => {
                        match &f.payload {
                            FieldPayload::Nested(b) => {
                                let mut inner = b.children_tags();
                                let ghost inner0 = inner@;
                                out.append(&mut inner);
                                proof {
                                    assert(names_view(out@) =~= names_view(before) + names_view(
                                        inner0,
                                    ));
                                }
                            },
                            _ => {
                                proof {
                                    assert(names_view(out@) =~= names_view(before) + head);
                                }
                            },
                        }
                    },
                    _ => {
                        proof {
                            assert(names_view(out@) =~= names_view(before) + head);
                        }
                    },
                }
                proof {
                    assert((names_view(before) + head) + spec_tags_from(*self, i + 1)
                        =~= names_view(before) + spec_tags_from(*self, i as int));
                }
                i += 1;
            }
            proof {
                assert(spec_tags_from(*self, self.struct_fields@.len() as int)
                    =~= Seq::<Seq<char>>::empty());
                assert(names_view(out@) + Seq::<Seq<char>>::empty() =~= names_view(out@));
            }
            out
        }
    }
}

/// The views of a list of names.
pub open spec fn names_view(s: Seq<Vec<char>>) -> Seq<Seq<char>> {
    s.map_values(|n: Vec<char>| n@)
}

pub proof fn lemma_variant_tags_take(vs: Seq<EnumVariant>, i: int)
    requires
        0 <= i < vs.len(),
    ensures
        spec_variant_tags(vs.take(i + 1)) == spec_variant_tags(vs.take(i)) + (match vs[i] {
            EnumVariant { name: Some(n), ele_type: EleType::Child, payload: _ } => seq![n@],
            _ => Seq::<Seq<char>>::empty(),
        }),
    decreases i,
{
    if i == 0 {
        assert(vs.take(1).drop_first() =~= Seq::<EnumVariant>::empty());
        assert(vs.take(0) =~= Seq::<EnumVariant>::empty());
        assert(spec_variant_tags(vs.take(1)) =~= spec_variant_tags(vs.take(0)) + (match vs[0] {
            EnumVariant { name: Some(n), ele_type: EleType::Child, payload: _ } => seq![n@],
            _ => Seq::<Seq<char>>::empty(),
        }));
    } else {
        lemma_variant_tags_take(vs.drop_first(), i - 1);
        assert(vs.take(i + 1).drop_first() =~= vs.drop_first().take(i));
        assert(vs.take(i).drop_first() =~= vs.drop_first().take(i - 1));
        assert(vs.drop_first()[i - 1] == vs[i]);
        assert(spec_variant_tags(vs.take(i + 1)) =~= spec_variant_tags(vs.take(i)) + (match vs[i] {
            EnumVariant { name: Some(n), ele_type: EleType::Child, payload: _ } => seq![n@],
            _ => Seq::<Seq<char>>::empty(),
        }));
    }
}


/// What schema building enforces: a sum type carries no roots and no
/// unknown-field policy of its own, untagged fields carry no name, and a
/// record with a text field has no element children beside it.
pub open spec fn spec_validate_ok(c: Container) -> bool {
    &&& (c.enum_variants@.len() > 0 ==> c.roots@.len() == 0)
    &&& (c.enum_variants@.len() > 0 ==> !c.deny_unknown)
    &&& (forall|i: int|
        0 <= i < c.struct_fields@.len() ==> spec_field_named_ok(#[trigger] c.struct_fields@[i]))
    &&& ((exists|i: int|
        0 <= i < c.struct_fields@.len() && (#[trigger] c.struct_fields@[i].ty) is Text) ==> (
    forall|j: int|
        0 <= j < c.struct_fields@.len() ==> !((#[trigger] c.struct_fields@[j].ty) is Child
            || c.struct_fields@[j].ty is SelfClosedChild || c.struct_fields@[j].ty is Untag
            || c.struct_fields@[j].ty is UntaggedEnum)))
}

impl Container {
    /// Check the schema-level invariants, exactly the condition of
    /// `spec_validate_ok`.
    pub fn validate(&self) -> (r: Result<(), ContainerError>)
        ensures
            r is Ok <==> spec_validate_ok(*self),
    {
        if self.enum_variants.len() > 0 && self.roots.len() > 0 {
            return Err(
                ContainerError::InvalidContainerAttributes(
                    "for clarity, enum should not have the root attribute. please use a struct to wrap the enum and set its type to untag".to_owned(),
                ),
            );
        }
        if self.enum_variants.len() > 0 && self.deny_unknown {
            return Err(
                ContainerError::InvalidContainerAttributes(
                    "`deny_unknown_fields` is not supported in enum type".to_owned(),
                ),
            );
        }
        let mut i: usize = 0;
        let mut has_text: bool = false;
        let mut has_element_children: bool = false;
        while i < self.struct_fields.len()
            invariant
                i <= self.struct_fields@.len(),
                forall|j: int|
                    0 <= j < i ==> spec_field_named_ok(#[trigger] self.struct_fields@[j]),
                has_text == (exists|j: int|
                    0 <= j < i && (#[trigger] self.struct_fields@[j].ty) is Text),
                has_element_children == (exists|j: int|
                    0 <= j < i && ((#[trigger] self.struct_fields@[j].ty) is Child
                        || self.struct_fields@[j].ty is SelfClosedChild
                        || self.struct_fields@[j].ty is Untag
                        || self.struct_fields@[j].ty is UntaggedEnum)),
            decreases self.struct_fields@.len() - i,
        {
            let f = &self.struct_fields[i];
            match f.validate() {
                Ok(()) => {},
                Err(e) => {
                    return Err(e);
                },
            }
            if matches!(f.ty, EleType::Text) {
                has_text = true;
                proof {
                    assert((self.struct_fields@[i as int].ty) is Text);
                }
            }
            if matches!(
                f.ty,
                EleType::Child | EleType::SelfClosedChild | EleType::Untag | EleType::UntaggedEnum,
            ) {
                has_element_children = true;
            }
            i += 1;
        }
        if has_text && has_element_children {
            return Err(
                ContainerError::InvalidContainerAttributes(
                    "cannot have the text and children at the same time".to_owned(),
                ),
            );
        }
        Ok(())
    }
}

} // verus!
