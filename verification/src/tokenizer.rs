//! The document reader: turns the characters of a well-formed XML
//! document into a stream of events. Comments, processing instructions
//! and document-type declarations are skipped; entity references in
//! attribute values and text are resolved.
use crate::chars::is_ws;
use crate::events::{Attr, AttrV, EventV, XmlEvent};
use vstd::prelude::*;

verus! {

/// Position of the next `<` at or after `i`, or the end.
pub open spec fn text_end(s: Seq<char>, i: int) -> int
    decreases s.len() - i,
{
    if i < 0 || i >= s.len() {
        s.len() as int
    } else if s[i] == '<' {
        i
    } else {
        text_end(s, i + 1)
    }
}

/// End of a name: the next whitespace, `/`, `>` or `=` at or after `i`.
pub open spec fn name_stop(c: char) -> bool {
    is_ws(c) || c == '/' || c == '>' || c == '='
}

pub open spec fn name_end(s: Seq<char>, i: int) -> int
    decreases s.len() - i,
{
    if i < 0 || i >= s.len() {
        s.len() as int
    } else if name_stop(s[i]) {
        i
    } else {
        name_end(s, i + 1)
    }
}

/// First position at or after `i` that is not whitespace, or the end.
pub open spec fn skip_ws(s: Seq<char>, i: int) -> int
    decreases s.len() - i,
{
    if i < 0 || i >= s.len() {
        s.len() as int
    } else if is_ws(s[i]) {
        skip_ws(s, i + 1)
    } else {
        i
    }
}

/// Position of the next occurrence of `c` at or after `i`, or the end.
pub open spec fn char_pos(s: Seq<char>, i: int, c: char) -> int
    decreases s.len() - i,
{
    if i < 0 || i >= s.len() {
        s.len() as int
    } else if s[i] == c {
        i
    } else {
        char_pos(s, i + 1, c)
    }
}

/// Position where `--` starts the comment terminator `-->`, or the end.
pub open spec fn comment_end(s: Seq<char>, i: int) -> int
    decreases s.len() - i,
{
    if i < 0 || i + 3 > s.len() {
        s.len() as int
    } else if s[i] == '-' && s[i + 1] == '-' && s[i + 2] == '>' {
        i
    } else {
        comment_end(s, i + 1)
    }
}

/// Position where `?>` starts, or the end.
pub open spec fn pi_end(s: Seq<char>, i: int) -> int
    decreases s.len() - i,
{
    if i < 0 || i + 2 > s.len() {
        s.len() as int
    } else if s[i] == '?' && s[i + 1] == '>' {
        i
    } else {
        pi_end(s, i + 1)
    }
}

pub proof fn lemma_scan_bounds(s: Seq<char>, i: int)
    requires
        0 <= i <= s.len(),
    ensures
        i <= text_end(s, i) <= s.len(),
        i <= name_end(s, i) <= s.len(),
        i <= skip_ws(s, i) <= s.len(),
        i <= comment_end(s, i) <= s.len(),
        i <= pi_end(s, i) <= s.len(),
    decreases s.len() - i,
{
    if i < s.len() {
        lemma_scan_bounds(s, i + 1);
    }
}

pub proof fn lemma_char_pos_bounds(s: Seq<char>, i: int, c: char)
    requires
        0 <= i <= s.len(),
    ensures
        i <= char_pos(s, i, c) <= s.len(),
    decreases s.len() - i,
{
    if i < s.len() {
        lemma_char_pos_bounds(s, i + 1, c);
    }
}

/// The character denoted by a named entity.
pub open spec fn entity_char(e: Seq<char>) -> Option<char> {
    if e == "amp"@ {
        Some('&')
    } else if e == "lt"@ {
        Some('<')
    } else if e == "gt"@ {
        Some('>')
    } else if e == "quot"@ {
        Some('"')
    } else if e == "apos"@ {
        Some('\'')
    } else {
        None
    }
}

/// The unescaped form of the characters in `[i, to)`: entity references
/// are resolved; an unterminated or unknown reference fails.
pub open spec fn unesc_at(s: Seq<char>, i: int, to: int) -> Option<Seq<char>>
    decreases to - i,
{
    if i < 0 || i >= to || to > s.len() {
        Some(Seq::empty())
    } else if s[i] == '&' {
        let k = char_pos(s, i + 1, ';');
        if k >= to {
            None
        } else {
            match entity_char(s.subrange(i + 1, k)) {
                None => None,
                Some(c) => {
                    proof {
                        lemma_char_pos_bounds(s, i + 1, ';');
                    }
                    match unesc_at(s, k + 1, to) {
                        None => None,
                        Some(rest) => Some(seq![c] + rest),
                    }
                },
            }
        }
    } else {
        match unesc_at(s, i + 1, to) {
            None => None,
            Some(rest) => Some(seq![s[i]] + rest),
        }
    }
}

/// The attribute list of a tag, parsed from `i` up to the closing `>` or
/// `/>`: the parsed attributes, the position after the closing bracket,
/// and whether the tag was self-closing.
pub open spec fn spec_attrs(s: Seq<char>, i: int) -> Option<(Seq<AttrV>, int, bool)>
    decreases s.len() - i,
    when 0 <= i <= s.len()
{
    let k = skip_ws(s, i);
    proof {
        lemma_scan_bounds(s, i);
    }
    if k >= s.len() {
        None
    } else if s[k] == '>' {
        Some((Seq::empty(), k + 1, false))
    } else if s[k] == '/' {
        if k + 1 < s.len() && s[k + 1] == '>' {
            Some((Seq::empty(), k + 2, true))
        } else {
            None
        }
    } else {
        let j = name_end(s, k);
        proof {
            lemma_scan_bounds(s, k);
        }
        if j == k {
            None
        } else {
            let name = s.subrange(k, j);
            let m = skip_ws(s, j);
            proof {
                lemma_scan_bounds(s, j);
            }
            if m >= s.len() || s[m] != '=' {
                None
            } else {
                let q = skip_ws(s, m + 1);
                proof {
                    lemma_scan_bounds(s, m + 1);
                }
                if q >= s.len() || !(s[q] == '"' || s[q] == '\'') {
                    None
                } else {
                    let e = char_pos(s, q + 1, s[q]);
                    proof {
                        lemma_char_pos_bounds(s, q + 1, s[q]);
                    }
                    if e >= s.len() {
                        None
                    } else {
                        match unesc_at(s, q + 1, e) {
                            None => None,
                            Some(val) => match spec_attrs(s, e + 1) {
                                None => None,
                                Some((rest, after, sc)) => Some(
                                    (seq![AttrV { name, value: val }] + rest, after, sc),
                                ),
                            },
                        }
                    }
                }
            }
        }
    }
}

pub proof fn lemma_spec_attrs_pos(s: Seq<char>, i: int)
    requires
        0 <= i <= s.len(),
    ensures
        (match spec_attrs(s, i) {
            Some((_, after, _)) => i < after <= s.len(),
            None => true,
        }),
    decreases s.len() - i,
{
    lemma_scan_bounds(s, i);
    let k = skip_ws(s, i);
    if k < s.len() && s[k] != '>' && !(s[k] == '/') {
        lemma_scan_bounds(s, k);
        let j = name_end(s, k);
        if j != k {
            lemma_scan_bounds(s, j);
            let m = skip_ws(s, j);
            if !(m >= s.len() || s[m] != '=') {
                lemma_scan_bounds(s, m + 1);
                let q = skip_ws(s, m + 1);
                if !(q >= s.len() || !(s[q] == '"' || s[q] == '\'')) {
                    lemma_char_pos_bounds(s, q + 1, s[q]);
                    let e = char_pos(s, q + 1, s[q]);
                    if e < s.len() {
                        lemma_spec_attrs_pos(s, e + 1);
                    }
                }
            }
        }
    }
}

/// The event stream of the document from position `i` on, or nothing
/// when the text is not well formed.
pub open spec fn spec_scan(s: Seq<char>, i: int) -> Option<Seq<EventV>>
    decreases s.len() - i, 1int,
    when 0 <= i <= s.len()
{
    if i >= s.len() {
        Some(Seq::empty())
    } else if s[i] == '<' {
        spec_markup(s, i)
    } else {
        let j = text_end(s, i);
        proof {
            lemma_scan_bounds(s, i);
            lemma_text_end_progress(s, i);
        }
        match unesc_at(s, i, j) {
            None => None,
            Some(t) => match spec_scan(s, j) {
                None => None,
                Some(evs) => Some(seq![EventV::Text { content: t }] + evs),
            },
        }
    }
}

pub proof fn lemma_text_end_progress(s: Seq<char>, i: int)
    requires
        0 <= i < s.len(),
        s[i] != '<',
    ensures
        text_end(s, i) > i,
{
    lemma_scan_bounds(s, i + 1);
}

/// The events of one piece of markup beginning with `<` at `i`, followed
/// by the rest of the document.
pub open spec fn spec_markup(s: Seq<char>, i: int) -> Option<Seq<EventV>>
    decreases s.len() - i, 0int,
    when 0 <= i < s.len() && s[i] == '<'
{
    if i + 1 >= s.len() {
        None
    } else if s[i + 1] == '/' {
        let j = name_end(s, i + 2);
        proof {
            lemma_scan_bounds(s, i + 2);
        }
        let k = skip_ws(s, j);
        proof {
            lemma_scan_bounds(s, j);
        }
        if j == i + 2 || k >= s.len() || s[k] != '>' {
            None
        } else {
            match spec_scan(s, k + 1) {
                None => None,
                Some(evs) => Some(seq![EventV::End { name: s.subrange(i + 2, j) }] + evs),
            }
        }
    } else if s[i + 1] == '!' {
        if i + 4 <= s.len() && s[i + 2] == '-' && s[i + 3] == '-' {
            let j = comment_end(s, i + 4);
            proof {
                lemma_scan_bounds(s, i + 4);
            }
            if j + 3 > s.len() {
                None
            } else {
                spec_scan(s, j + 3)
            }
        } else {
            let j = char_pos(s, i + 2, '>');
            proof {
                lemma_char_pos_bounds(s, i + 2, '>');
            }
            if j >= s.len() {
                None
            } else {
                spec_scan(s, j + 1)
            }
        }
    } else if s[i + 1] == '?' {
        let j = pi_end(s, i + 2);
        proof {
            lemma_scan_bounds(s, i + 2);
        }
        if j + 2 > s.len() {
            None
        } else {
            spec_scan(s, j + 2)
        }
    } else {
        let j = name_end(s, i + 1);
        proof {
            lemma_scan_bounds(s, i + 1);
        }
        if j == i + 1 {
            None
        } else {
            let name = s.subrange(i + 1, j);
            proof {
                lemma_spec_attrs_pos(s, j);
            }
            match spec_attrs(s, j) {
                None => None,
                Some((attrs, after, sc)) => match spec_scan(s, after) {
                    None => None,
                    Some(evs) => if sc {
                        Some(seq![EventV::Empty { name, attrs }] + evs)
                    } else {
                        Some(seq![EventV::Start { name, attrs }] + evs)
                    },
                },
            }
        }
    }
}

/// The event stream of a whole document.
pub open spec fn spec_tokenize(s: Seq<char>) -> Option<Seq<EventV>> {
    spec_scan(s, 0)
}

fn text_end_x(s: &Vec<char>, i: usize) -> (r: usize)
    requires
        i <= s@.len(),
    ensures
        r == text_end(s@, i as int),
        i <= r <= s@.len(),
{
    let mut j = i;
    while j < s.len() && s[j] != '<'
        invariant
            i <= j <= s@.len(),
            text_end(s@, i as int) == text_end(s@, j as int),
        decreases s@.len() - j,
    {
        j += 1;
    }
    j
}

fn name_end_x(s: &Vec<char>, i: usize) -> (r: usize)
    requires
        i <= s@.len(),
    ensures
        r == name_end(s@, i as int),
        i <= r <= s@.len(),
{
    let mut j = i;
    loop
        invariant
            i <= j <= s@.len(),
            name_end(s@, i as int) == name_end(s@, j as int),
        decreases s@.len() - j,
    {
        if j >= s.len() {
            return j;
        }
        let c = s[j];
        if c == ' ' || c == '\t' || c == '\n' || c == '\r' || c == '/' || c == '>' || c == '=' {
            return j;
        }
        j += 1;
    }
}

fn skip_ws_x(s: &Vec<char>, i: usize) -> (r: usize)
    requires
        i <= s@.len(),
    ensures
        r == skip_ws(s@, i as int),
        i <= r <= s@.len(),
{
    let mut j = i;
    loop
        invariant
            i <= j <= s@.len(),
            skip_ws(s@, i as int) == skip_ws(s@, j as int),
        decreases s@.len() - j,
    {
        if j >= s.len() {
            return j;
        }
        let c = s[j];
        if !(c == ' ' || c == '\t' || c == '\n' || c == '\r') {
            return j;
        }
        j += 1;
    }
}

fn char_pos_x(s: &Vec<char>, i: usize, c: char) -> (r: usize)
    requires
        i <= s@.len(),
    ensures
        r == char_pos(s@, i as int, c),
        i <= r <= s@.len(),
{
    let mut j = i;
    while j < s.len() && s[j] != c
        invariant
            i <= j <= s@.len(),
            char_pos(s@, i as int, c) == char_pos(s@, j as int, c),
        decreases s@.len() - j,
    {
        j += 1;
    }
    j
}

fn comment_end_x(s: &Vec<char>, i: usize) -> (r: usize)
    requires
        i <= s@.len(),
    ensures
        r == comment_end(s@, i as int),
        i <= r <= s@.len(),
{
    let mut j = i;
    loop
        invariant
            i <= j <= s@.len(),
            comment_end(s@, i as int) == comment_end(s@, j as int),
        decreases s@.len() - j,
    {
        if s.len() - j < 3 {
            return s.len();
        }
        if s[j] == '-' && s[j + 1] == '-' && s[j + 2] == '>' {
            return j;
        }
        j += 1;
    }
}

fn pi_end_x(s: &Vec<char>, i: usize) -> (r: usize)
    requires
        i <= s@.len(),
    ensures
        r == pi_end(s@, i as int),
        i <= r <= s@.len(),
{
    let mut j = i;
    loop
        invariant
            i <= j <= s@.len(),
            pi_end(s@, i as int) == pi_end(s@, j as int),
        decreases s@.len() - j,
    {
        if s.len() - j < 2 {
            return s.len();
        }
        if s[j] == '?' && s[j + 1] == '>' {
            return j;
        }
        j += 1;
    }
}

/// Copy the characters in `[from, to)`.
pub fn copy_range(s: &Vec<char>, from: usize, to: usize) -> (r: Vec<char>)
    requires
        from <= to <= s@.len(),
    ensures
        r@ == s@.subrange(from as int, to as int),
{
    let mut r: Vec<char> = Vec::new();
    let mut i = from;
    while i < to
        invariant
            from <= i <= to <= s@.len(),
            r@ == s@.subrange(from as int, i as int),
        decreases to - i,
    {
        r.push(s[i]);
        proof {
            assert(r@ =~= s@.subrange(from as int, i + 1));
        }
        i += 1;
    }
    r
}

/// Whether the characters in `[from, to)` equal a literal.
fn range_is(s: &Vec<char>, from: usize, to: usize, lit: &str) -> (r: bool)
    requires
        from <= to <= s@.len(),
    ensures
        r == (s@.subrange(from as int, to as int) == lit@),
{
    let v = copy_range(s, from, to);
    let l = crate::chars::str_chars(lit);
    crate::chars::chars_eq(&v, &l)
}

pub open spec fn opt_prepend(p: Seq<char>, o: Option<Seq<char>>) -> Option<Seq<char>> {
    match o {
        None => None,
        Some(r) => Some(p + r),
    }
}

/// Resolve entity references in `[from, to)`.
fn unescape_range(s: &Vec<char>, from: usize, to: usize) -> (r: Option<Vec<char>>)
    requires
        from <= to <= s@.len(),
    ensures
        (match r {
            Some(v) => unesc_at(s@, from as int, to as int) == Some(v@),
            None => unesc_at(s@, from as int, to as int) is None,
        }),
{
    let mut acc: Vec<char> = Vec::new();
    let mut i = from;
    while i < to
        invariant
            from <= i <= to <= s@.len(),
            unesc_at(s@, from as int, to as int) == opt_prepend(
                acc@,
                unesc_at(s@, i as int, to as int),
            ),
        decreases to - i,
    {
        let c = s[i];
        if c == '&' {
            let k = char_pos_x(s, i + 1, ';');
            if k >= to {
                return None;
            }
            let ghost ent = s@.subrange(i + 1, k as int);
            let e: char = if range_is(s, i + 1, k, "amp") {
                '&'
            } else if range_is(s, i + 1, k, "lt") {
                '<'
            } else if range_is(s, i + 1, k, "gt") {
                '>'
            } else if range_is(s, i + 1, k, "quot") {
                '"'
            } else if range_is(s, i + 1, k, "apos") {
                '\''
            } else {
                proof {
                    assert(entity_char(ent) is None);
                }
                return None;
            };
            proof {
                assert(entity_char(ent) == Some(e));
                assert(opt_prepend(acc@.push(e), unesc_at(s@, k + 1, to as int)) == opt_prepend(
                    acc@,
                    opt_prepend(seq![e], unesc_at(s@, k + 1, to as int)),
                )) by {
                    match unesc_at(s@, k + 1, to as int) {
                        None => {},
                        Some(rest) => {
                            assert(acc@.push(e) + rest =~= acc@ + (seq![e] + rest));
                        },
                    }
                }
            }
            acc.push(e);
            i = k + 1;
        } else {
            proof {
                assert(opt_prepend(acc@.push(c), unesc_at(s@, i + 1, to as int)) == opt_prepend(
                    acc@,
                    opt_prepend(seq![c], unesc_at(s@, i + 1, to as int)),
                )) by {
                    match unesc_at(s@, i + 1, to as int) {
                        None => {},
                        Some(rest) => {
                            assert(acc@.push(c) + rest =~= acc@ + (seq![c] + rest));
                        },
                    }
                }
            }
            acc.push(c);
            i += 1;
        }
    }
    proof {
        assert(unesc_at(s@, i as int, to as int) == Some(Seq::<char>::empty()));
        assert(acc@ + Seq::<char>::empty() =~= acc@);
    }
    Some(acc)
}

/// Parse the attribute list of a tag from `i` on.
fn parse_attrs(s: &Vec<char>, i: usize) -> (r: Option<(Vec<Attr>, usize, bool)>)
    requires
        i <= s@.len(),
    ensures
        (match r {
            Some((attrs, after, sc)) => spec_attrs(s@, i as int) == Some(
                (crate::events::attrs_view(attrs@), after as int, sc),
            ) && i < after <= s@.len(),
            None => spec_attrs(s@, i as int) is None,
        }),
    decreases s@.len() - i,
{
    let k = skip_ws_x(s, i);
    if k >= s.len() {
        return None;
    }
    let ck = s[k];
    if ck == '>' {
        let attrs: Vec<Attr> = Vec::new();
        proof {
            assert(crate::events::attrs_view(attrs@) =~= Seq::<AttrV>::empty());
        }
        return Some((attrs, k + 1, false));
    }
    if ck == '/' {
        if k + 1 < s.len() && s[k + 1] == '>' {
            let attrs: Vec<Attr> = Vec::new();
            proof {
                assert(crate::events::attrs_view(attrs@) =~= Seq::<AttrV>::empty());
            }
            return Some((attrs, k + 2, true));
        }
        return None;
    }
    let j = name_end_x(s, k);
    if j == k {
        return None;
    }
    let name = copy_range(s, k, j);
    let m = skip_ws_x(s, j);
    if m >= s.len() || s[m] != '=' {
        return None;
    }
    let q = skip_ws_x(s, m + 1);
    if q >= s.len() {
        return None;
    }
    let quote = s[q];
    if !(quote == '"' || quote == '\'') {
        return None;
    }
    let e = char_pos_x(s, q + 1, quote);
    if e >= s.len() {
        return None;
    }
    let val = match unescape_range(s, q + 1, e) {
        Some(v) => v,
        None => {
            return None;
        },
    };
    match parse_attrs(s, e + 1) {
        Some((mut rest, after, sc)) => {
            let ghost val_v = val@;
            let mut attrs: Vec<Attr> = Vec::new();
            attrs.push(Attr { name, value: val });
            let ghost rest0 = rest@;
            attrs.append(&mut rest);
            proof {
                assert(crate::events::attrs_view(attrs@) =~= seq![
                    AttrV { name: s@.subrange(k as int, j as int), value: val_v },
                ] + crate::events::attrs_view(rest0));
            }
            Some((attrs, after, sc))
        },
        None => None,
    }
}

/// Read the events of the document from position `i` on.
fn scan(s: &Vec<char>, i: usize) -> (r: Option<Vec<XmlEvent>>)
    requires
        i <= s@.len(),
    ensures
        (match r {
            Some(evs) => spec_scan(s@, i as int) == Some(crate::events::evs_view(evs@)),
            None => spec_scan(s@, i as int) is None,
        }),
    decreases s@.len() - i, 1int,
{
    if i >= s.len() {
        let evs: Vec<XmlEvent> = Vec::new();
        proof {
            assert(crate::events::evs_view(evs@) =~= Seq::<EventV>::empty());
        }
        return Some(evs);
    }
    if s[i] == '<' {
        return markup(s, i);
    }
    let j = text_end_x(s, i);
    proof {
        lemma_text_end_progress(s@, i as int);
    }
    let t = match unescape_range(s, i, j) {
        Some(t) => t,
        None => {
            return None;
        },
    };
    match scan(s, j) {
        Some(mut evs) => {
            let ghost t_v = t@;
            let mut r: Vec<XmlEvent> = Vec::new();
            r.push(XmlEvent::Text { content: t });
            let ghost evs0 = evs@;
            r.append(&mut evs);
            proof {
                assert(crate::events::evs_view(r@) =~= seq![
                    EventV::Text { content: t_v },
                ] + crate::events::evs_view(evs0));
            }
            Some(r)
        },
        None => None,
    }
}

/// Read one piece of markup beginning at `i`, then the rest.
fn markup(s: &Vec<char>, i: usize) -> (r: Option<Vec<XmlEvent>>)
    requires
        i < s@.len(),
        s@[i as int] == '<',
    ensures
        (match r {
            Some(evs) => spec_markup(s@, i as int) == Some(crate::events::evs_view(evs@)),
            None => spec_markup(s@, i as int) is None,
        }),
    decreases s@.len() - i, 0int,
{
    let n = s.len();
    if i + 1 >= n {
        return None;
    }
    let c1 = s[i + 1];
    if c1 == '/' {
        let j = name_end_x(s, i + 2);
        let k = skip_ws_x(s, j);
        if j == i + 2 || k >= n || s[k] != '>' {
            return None;
        }
        let name = copy_range(s, i + 2, j);
        match scan(s, k + 1) {
            Some(mut evs) => {
                let mut r: Vec<XmlEvent> = Vec::new();
                r.push(XmlEvent::End { name });
                let ghost evs0 = evs@;
                r.append(&mut evs);
                proof {
                    assert(crate::events::evs_view(r@) =~= seq![
                        EventV::End { name: s@.subrange(i + 2, j as int) },
                    ] + crate::events::evs_view(evs0));
                }
                Some(r)
            },
            None => None,
        }
    } else if c1 == '!' {
        if n - i >= 4 && s[i + 2] == '-' && s[i + 3] == '-' {
            let j = comment_end_x(s, i + 4);
            if n - j < 3 {
                return None;
            }
            scan(s, j + 3)
        } else {
            let j = char_pos_x(s, i + 2, '>');
            if j >= n {
                return None;
            }
            scan(s, j + 1)
        }
    } else if c1 == '?' {
        let j = pi_end_x(s, i + 2);
        if n - j < 2 {
            return None;
        }
        scan(s, j + 2)
    } else {
        let j = name_end_x(s, i + 1);
        if j == i + 1 {
            return None;
        }
        let name = copy_range(s, i + 1, j);
        match parse_attrs(s, j) {
            Some((attrs, after, sc)) => {
                match scan(s, after) {
                    Some(mut evs) => {
                        let ghost attrs_v = crate::events::attrs_view(attrs@);
                        let ghost evs0 = evs@;
                        let mut r: Vec<XmlEvent> = Vec::new();
                        if sc {
                            r.push(XmlEvent::Empty { name, attrs });
                            let ghost ev = EventV::Empty {
                                name: s@.subrange(i + 1, j as int),
                                attrs: attrs_v,
                            };
                            r.append(&mut evs);
                            proof {
                                assert(crate::events::evs_view(r@) =~= seq![ev]
                                    + crate::events::evs_view(evs0));
                            }
                        } else {
                            r.push(XmlEvent::Start { name, attrs });
                            let ghost ev = EventV::Start {
                                name: s@.subrange(i + 1, j as int),
                                attrs: attrs_v,
                            };
                            r.append(&mut evs);
                            proof {
                                assert(crate::events::evs_view(r@) =~= seq![ev]
                                    + crate::events::evs_view(evs0));
                            }
                        }
                        Some(r)
                    },
                    None => None,
                }
            },
            None => None,
        }
    }
}

/// Read the events of a whole document.
pub fn tokenize(s: &Vec<char>) -> (r: Option<Vec<XmlEvent>>)
    ensures
        (match r {
            Some(evs) => spec_tokenize(s@) == Some(crate::events::evs_view(evs@)),
            None => spec_tokenize(s@) is None,
        }),
{
    scan(s, 0)
}

} // verus!
