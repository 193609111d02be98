//! Naming-convention policies: a case policy maps an identifier-style
//! name to its serialized form. The conversions themselves are done by
//! the `heck` crate and the standard library; each is named here so that
//! contracts can speak of the converted form.
use crate::chars::{chars_to_string, str_chars};
use vstd::prelude::*;

verus! {

/// A naming convention applied to names that carry no explicit rename.
#[derive(Debug, Clone, Copy)]
pub enum Case {
    Identity,
    Lowercase,
    Uppercase,
    CamelCase,
    PascalCase,
    SnakeCase,
    KebabCase,
    ShoutySnakeCase,
    ShoutyKebabCase,
}

pub uninterp spec fn lower_of(s: Seq<char>) -> Seq<char>;

pub uninterp spec fn upper_of(s: Seq<char>) -> Seq<char>;

pub uninterp spec fn lower_camel_of(s: Seq<char>) -> Seq<char>;

pub uninterp spec fn upper_camel_of(s: Seq<char>) -> Seq<char>;

pub uninterp spec fn snake_of(s: Seq<char>) -> Seq<char>;

pub uninterp spec fn kebab_of(s: Seq<char>) -> Seq<char>;

pub uninterp spec fn shouty_snake_of(s: Seq<char>) -> Seq<char>;

pub uninterp spec fn shouty_kebab_of(s: Seq<char>) -> Seq<char>;

/// Relies on `str::to_lowercase`: the result depends on the characters alone.
#[verifier::external_body]
fn to_lower(s: &str) -> (r: String)
    ensures
        r@ == lower_of(s@),
{
    s.to_lowercase()
}

/// Relies on `str::to_uppercase`: the result depends on the characters alone.
#[verifier::external_body]
fn to_upper(s: &str) -> (r: String)
    ensures
        r@ == upper_of(s@),
{
    s.to_uppercase()
}

/// Relies on `heck::ToLowerCamelCase`: the result depends on the characters alone.
#[verifier::external_body]
fn to_lower_camel(s: &str) -> (r: String)
    ensures
        r@ == lower_camel_of(s@),
{
    heck::ToLowerCamelCase::to_lower_camel_case(s)
}

/// Relies on `heck::ToUpperCamelCase`: the result depends on the characters alone.
#[verifier::external_body]
fn to_upper_camel(s: &str) -> (r: String)
    ensures
        r@ == upper_camel_of(s@),
{
    heck::ToUpperCamelCase::to_upper_camel_case(s)
}

/// Relies on `heck::ToSnakeCase`: the result depends on the characters alone.
#[verifier::external_body]
fn to_snake(s: &str) -> (r: String)
    ensures
        r@ == snake_of(s@),
{
    heck::ToSnakeCase::to_snake_case(s)
}

/// Relies on `heck::ToKebabCase`: the result depends on the characters alone.
#[verifier::external_body]
fn to_kebab(s: &str) -> (r: String)
    ensures
        r@ == kebab_of(s@),
{
    heck::ToKebabCase::to_kebab_case(s)
}

/// Relies on `heck::ToShoutySnakeCase`: the result depends on the characters alone.
#[verifier::external_body]
fn to_shouty_snake(s: &str) -> (r: String)
    ensures
        r@ == shouty_snake_of(s@),
{
    heck::ToShoutySnakeCase::to_shouty_snake_case(s)
}

/// Relies on `heck::ToShoutyKebabCase`: the result depends on the characters alone.
#[verifier::external_body]
fn to_shouty_kebab(s: &str) -> (r: String)
    ensures
        r@ == shouty_kebab_of(s@),
{
    heck::ToShoutyKebabCase::to_shouty_kebab_case(s)
}

/// What a case policy makes of a name.
pub open spec fn convert_spec(c: Case, s: Seq<char>) -> Seq<char> {
    match c {
        Case::Identity => s,
        Case::Lowercase => lower_of(s),
        Case::Uppercase => upper_of(s),
        Case::CamelCase => lower_camel_of(s),
        Case::PascalCase => upper_camel_of(s),
        Case::SnakeCase => snake_of(s),
        Case::KebabCase => kebab_of(s),
        Case::ShoutySnakeCase => shouty_snake_of(s),
        Case::ShoutyKebabCase => shouty_kebab_of(s),
    }
}

/// The policy named by a `rename_all` value, if any.
pub open spec fn spec_parse_case(s: Seq<char>) -> Option<Case> {
    if s == "none"@ {
        Some(Case::Identity)
    } else if s == "lowercase"@ {
        Some(Case::Lowercase)
    } else if s == "UPPERCASE"@ {
        Some(Case::Uppercase)
    } else if s == "camelCase"@ {
        Some(Case::CamelCase)
    } else if s == "PascalCase"@ {
        Some(Case::PascalCase)
    } else if s == "snake_case"@ {
        Some(Case::SnakeCase)
    } else if s == "kebab-case"@ {
        Some(Case::KebabCase)
    } else if s == "SCREAMING_SNAKE_CASE"@ {
        Some(Case::ShoutySnakeCase)
    } else if s == "SCREAMING-KEBAB-CASE"@ {
        Some(Case::ShoutyKebabCase)
    } else {
        None
    }
}

/// Parse a `rename_all` policy name.
pub fn parse_case(lit: &str) -> (r: Option<Case>)
    ensures
        r == spec_parse_case(lit@),
{
    let s = str_chars(lit);
    if case_name_is(&s, "none") {
        Some(Case::Identity)
    } else if case_name_is(&s, "lowercase") {
        Some(Case::Lowercase)
    } else if case_name_is(&s, "UPPERCASE") {
        Some(Case::Uppercase)
    } else if case_name_is(&s, "camelCase") {
        Some(Case::CamelCase)
    } else if case_name_is(&s, "PascalCase") {
        Some(Case::PascalCase)
    } else if case_name_is(&s, "snake_case") {
        Some(Case::SnakeCase)
    } else if case_name_is(&s, "kebab-case") {
        Some(Case::KebabCase)
    } else if case_name_is(&s, "SCREAMING_SNAKE_CASE") {
        Some(Case::ShoutySnakeCase)
    } else if case_name_is(&s, "SCREAMING-KEBAB-CASE") {
        Some(Case::ShoutyKebabCase)
    } else {
        None
    }
}

fn case_name_is(s: &Vec<char>, name: &str) -> (r: bool)
    ensures
        r == (s@ == name@),
{
    let n = str_chars(name);
    crate::chars::chars_eq(s, &n)
}

impl Case {
    /// The name of this policy's variant.
    pub fn to_rename_all_variant(&self) -> (r: &'static str)
        ensures
            r@ == spec_variant_name(*self),
    {
        match self {
            Case::Identity => "None",
            Case::Lowercase => "Lowercase",
            Case::Uppercase => "Uppercase",
            Case::CamelCase => "CamelCase",
            Case::PascalCase => "PascalCase",
            Case::SnakeCase => "SnakeCase",
            Case::KebabCase => "KebabCase",
            Case::ShoutySnakeCase => "ShoutySnakeCase",
            Case::ShoutyKebabCase => "ShoutyKebabCase",
        }
    }

    /// Apply this policy to a string.
    pub fn convert(&self, input: &str) -> (r: String)
        ensures
            r@ == convert_spec(*self, input@),
    {
        match self {
            Case::Identity => input.to_owned(),
            Case::Lowercase => to_lower(input),
            Case::Uppercase => to_upper(input),
            Case::CamelCase => to_lower_camel(input),
            Case::PascalCase => to_upper_camel(input),
            Case::SnakeCase => to_snake(input),
            Case::KebabCase => to_kebab(input),
            Case::ShoutySnakeCase => to_shouty_snake(input),
            Case::ShoutyKebabCase => to_shouty_kebab(input),
        }
    }

    /// Apply this policy to a name given as characters.
    pub fn transform(&self, name: &Vec<char>) -> (r: Vec<char>)
        ensures
            r@ == convert_spec(*self, name@),
    {
        let s = chars_to_string(name);
        let t = self.convert(s.as_str());
        str_chars(t.as_str())
    }
}

pub open spec fn spec_variant_name(c: Case) -> Seq<char> {
    match c {
        Case::Identity => "None"@,
        Case::Lowercase => "Lowercase"@,
        Case::Uppercase => "Uppercase"@,
        Case::CamelCase => "CamelCase"@,
        Case::PascalCase => "PascalCase"@,
        Case::SnakeCase => "SnakeCase"@,
        Case::KebabCase => "KebabCase"@,
        Case::ShoutySnakeCase => "ShoutySnakeCase"@,
        Case::ShoutyKebabCase => "ShoutyKebabCase"@,
    }
}

} // verus!
