//! Scalar text values: the trait a type implements to stand in an
//! attribute or in text content, with the formats of the built-in
//! scalars. Booleans write `1` and `0` and read those and `true` and
//! `false` in any letter case; numbers are decimal.
use crate::chars::{chars_to_string, ci_eq, matches_ci, str_chars};
use crate::num::{
    fmt_i64, fmt_u64, parse_i64, parse_u64, spec_fmt_int, spec_fmt_nat, spec_parse_i64,
    spec_parse_u64,
};
use vstd::prelude::*;

verus! {

/// A scalar value with a textual wire form.
pub trait XmlValue: Sized {
    /// The rendered text of this value.
    spec fn text_of(&self) -> Seq<char>;

    /// Whether the text reads as the value.
    spec fn of_text(s: Seq<char>, v: Self) -> bool;

    /// Render the value.
    fn serialize(&self) -> (r: String)
        ensures
            r@ == self.text_of(),
    ;

    /// Read a value from its text.
    fn deserialize(s: &str) -> (r: Result<Self, String>)
        ensures
            (match r {
                Ok(v) => Self::of_text(s@, v),
                Err(_) => !(exists|v: Self| Self::of_text(s@, v)),
            }),
    ;
}

impl XmlValue for bool {
    open spec fn text_of(&self) -> Seq<char> {
        if *self {
            "1"@
        } else {
            "0"@
        }
    }

    open spec fn of_text(s: Seq<char>, v: bool) -> bool {
        if v {
            ci_eq(s, "1"@) || ci_eq(s, "true"@)
        } else {
            !(ci_eq(s, "1"@) || ci_eq(s, "true"@)) && (ci_eq(s, "0"@) || ci_eq(s, "false"@))
        }
    }

    fn serialize(&self) -> (r: String)
        ensures
            r@ == self.text_of(),
    {
        if *self {
            let r = String::from_str("1");
            proof {
                reveal_strlit("1");
            }
            r
        } else {
            let r = String::from_str("0");
            proof {
                reveal_strlit("0");
            }
            r
        }
    }

    fn deserialize(s: &str) -> (r: Result<bool, String>)
        ensures
            (match r {
                Ok(v) => <bool as XmlValue>::of_text(s@, v),
                Err(_) => !(exists|v: bool| <bool as XmlValue>::of_text(s@, v)),
            }),
    {
        let t = str_chars(s);
        let one = str_chars("1");
        let tr = str_chars("true");
        let zero = str_chars("0");
        let fa = str_chars("false");
        if matches_ci(&t, &one) || matches_ci(&t, &tr) {
            Ok(true)
        } else if matches_ci(&t, &zero) || matches_ci(&t, &fa) {
            Ok(false)
        } else {
            Err("cannot parse the value into a boolean".to_owned())
        }
    }
}

impl XmlValue for String {
    open spec fn text_of(&self) -> Seq<char> {
        self@
    }

    open spec fn of_text(s: Seq<char>, v: String) -> bool {
        v@ == s
    }

    fn serialize(&self) -> (r: String)
        ensures
            r@ == self.text_of(),
    {
        self.clone()
    }

    fn deserialize(s: &str) -> (r: Result<String, String>)
        ensures
            (match r {
                Ok(v) => <String as XmlValue>::of_text(s@, v),
                Err(_) => !(exists|v: String| <String as XmlValue>::of_text(s@, v)),
            }),
    {
        Ok(s.to_owned())
    }
}

impl XmlValue for u64 {
    open spec fn text_of(&self) -> Seq<char> {
        spec_fmt_nat(*self as nat)
    }

    open spec fn of_text(s: Seq<char>, v: u64) -> bool {
        spec_parse_u64(s) == Some(v)
    }

    fn serialize(&self) -> (r: String)
        ensures
            r@ == self.text_of(),
    {
        chars_to_string(&fmt_u64(*self))
    }

    fn deserialize(s: &str) -> (r: Result<u64, String>)
        ensures
            (match r {
                Ok(v) => <u64 as XmlValue>::of_text(s@, v),
                Err(_) => !(exists|v: u64| <u64 as XmlValue>::of_text(s@, v)),
            }),
    {
        match parse_u64(&str_chars(s)) {
            Some(n) => Ok(n),
            None => Err("cannot parse the value into a number".to_owned()),
        }
    }
}

impl XmlValue for i64 {
    open spec fn text_of(&self) -> Seq<char> {
        spec_fmt_int(*self as int)
    }

    open spec fn of_text(s: Seq<char>, v: i64) -> bool {
        spec_parse_i64(s) == Some(v)
    }

    fn serialize(&self) -> (r: String)
        ensures
            r@ == self.text_of(),
    {
        chars_to_string(&fmt_i64(*self))
    }

    fn deserialize(s: &str) -> (r: Result<i64, String>)
        ensures
            (match r {
                Ok(v) => <i64 as XmlValue>::of_text(s@, v),
                Err(_) => !(exists|v: i64| <i64 as XmlValue>::of_text(s@, v)),
            }),
    {
        match parse_i64(&str_chars(s)) {
            Some(n) => Ok(n),
            None => Err("cannot parse the value into a number".to_owned()),
        }
    }
}

impl XmlValue for u32 {
    open spec fn text_of(&self) -> Seq<char> {
        spec_fmt_nat(*self as nat)
    }

    open spec fn of_text(s: Seq<char>, v: u32) -> bool {
        spec_parse_u64(s) == Some(v as u64)
    }

    fn serialize(&self) -> (r: String)
        ensures
            r@ == self.text_of(),
    {
        chars_to_string(&fmt_u64(*self as u64))
    }

    fn deserialize(s: &str) -> (r: Result<u32, String>)
        ensures
            (match r {
                Ok(v) => <u32 as XmlValue>::of_text(s@, v),
                Err(_) => !(exists|v: u32| <u32 as XmlValue>::of_text(s@, v)),
            }),
    {
        match parse_u64(&str_chars(s)) {
            Some(n) => {
                if n <= 4294967295 {
                    Ok(n as u32)
                } else {
                    proof {
                        assert(forall|v: u32| #[trigger] (v as u64) != n);
                    }
                    Err("the number is out of range".to_owned())
                }
            },
            None => Err("cannot parse the value into a number".to_owned()),
        }
    }
}

impl XmlValue for u16 {
    open spec fn text_of(&self) -> Seq<char> {
        spec_fmt_nat(*self as nat)
    }

    open spec fn of_text(s: Seq<char>, v: u16) -> bool {
        spec_parse_u64(s) == Some(v as u64)
    }

    fn serialize(&self) -> (r: String)
        ensures
            r@ == self.text_of(),
    {
        chars_to_string(&fmt_u64(*self as u64))
    }

    fn deserialize(s: &str) -> (r: Result<u16, String>)
        ensures
            (match r {
                Ok(v) => <u16 as XmlValue>::of_text(s@, v),
                Err(_) => !(exists|v: u16| <u16 as XmlValue>::of_text(s@, v)),
            }),
    {
        match parse_u64(&str_chars(s)) {
            Some(n) => {
                if n <= 65535 {
                    Ok(n as u16)
                } else {
                    proof {
                        assert(forall|v: u16| #[trigger] (v as u64) != n);
                    }
                    Err("the number is out of range".to_owned())
                }
            },
            None => Err("cannot parse the value into a number".to_owned()),
        }
    }
}

impl XmlValue for i32 {
    open spec fn text_of(&self) -> Seq<char> {
        spec_fmt_int(*self as int)
    }

    open spec fn of_text(s: Seq<char>, v: i32) -> bool {
        spec_parse_i64(s) == Some(v as i64)
    }

    fn serialize(&self) -> (r: String)
        ensures
            r@ == self.text_of(),
    {
        chars_to_string(&fmt_i64(*self as i64))
    }

    fn deserialize(s: &str) -> (r: Result<i32, String>)
        ensures
            (match r {
                Ok(v) => <i32 as XmlValue>::of_text(s@, v),
                Err(_) => !(exists|v: i32| <i32 as XmlValue>::of_text(s@, v)),
            }),
    {
        match parse_i64(&str_chars(s)) {
            Some(n) => {
                if -2147483648 <= n && n <= 2147483647 {
                    Ok(n as i32)
                } else {
                    proof {
                        assert(forall|v: i32| #[trigger] (v as i64) != n);
                    }
                    Err("the number is out of range".to_owned())
                }
            },
            None => Err("cannot parse the value into a number".to_owned()),
        }
    }
}

} // verus!
