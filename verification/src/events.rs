//! The streaming event model of a document: start, empty and end
//! elements, and text. Attribute values and text are held unescaped;
//! escaping is applied when events are written and removed when a
//! document is read.
use vstd::prelude::*;

verus! {

/// An attribute as read or written: the value is unescaped.
#[derive(Debug, Clone)]
pub struct Attr {
    pub name: Vec<char>,
    pub value: Vec<char>,
}

/// One event of a document stream.
#[derive(Debug, Clone)]
pub enum XmlEvent {
    Start { name: Vec<char>, attrs: Vec<Attr> },
    Empty { name: Vec<char>, attrs: Vec<Attr> },
    End { name: Vec<char> },
    Text { content: Vec<char> },
}

/// The mathematical form of an attribute.
pub struct AttrV {
    pub name: Seq<char>,
    pub value: Seq<char>,
}

/// The mathematical form of an event.
pub enum EventV {
    Start { name: Seq<char>, attrs: Seq<AttrV> },
    Empty { name: Seq<char>, attrs: Seq<AttrV> },
    End { name: Seq<char> },
    Text { content: Seq<char> },
}

pub open spec fn attr_view(a: Attr) -> AttrV {
    AttrV { name: a.name@, value: a.value@ }
}

pub open spec fn attrs_view(s: Seq<Attr>) -> Seq<AttrV> {
    s.map_values(|a: Attr| attr_view(a))
}

pub open spec fn ev_view(e: XmlEvent) -> EventV {
    match e {
        XmlEvent::Start { name, attrs } => EventV::Start {
            name: name@,
            attrs: attrs_view(attrs@),
        },
        XmlEvent::Empty { name, attrs } => EventV::Empty {
            name: name@,
            attrs: attrs_view(attrs@),
        },
        XmlEvent::End { name } => EventV::End { name: name@ },
        XmlEvent::Text { content } => EventV::Text { content: content@ },
    }
}

pub open spec fn evs_view(s: Seq<XmlEvent>) -> Seq<EventV> {
    s.map_values(|e: XmlEvent| ev_view(e))
}

pub proof fn lemma_evs_view_push(s: Seq<XmlEvent>, e: XmlEvent)
    ensures
        evs_view(s.push(e)) == evs_view(s).push(ev_view(e)),
{
    assert(evs_view(s.push(e)) =~= evs_view(s).push(ev_view(e)));
}

/// A copy of an attribute list.
pub fn clone_attrs(v: &Vec<Attr>) -> (r: Vec<Attr>)
    ensures
        attrs_view(r@) == attrs_view(v@),
{
    let mut r: Vec<Attr> = Vec::new();
    let mut i: usize = 0;
    while i < v.len()
        invariant
            i <= v@.len(),
            r@.len() == i,
            forall|j: int| 0 <= j < i ==> attr_view(r@[j]) == attr_view(v@[j]),
        decreases v@.len() - i,
    {
        r.push(
            Attr {
                name: crate::chars::clone_chars(&v[i].name),
                value: crate::chars::clone_chars(&v[i].value),
            },
        );
        i += 1;
    }
    proof {
        assert(attrs_view(r@) =~= attrs_view(v@));
    }
    r
}

/// A copy of one event.
pub fn clone_event(e: &XmlEvent) -> (r: XmlEvent)
    ensures
        ev_view(r) == ev_view(*e),
{
    match e {
        XmlEvent::Start { name, attrs } => XmlEvent::Start {
            name: crate::chars::clone_chars(name),
            attrs: clone_attrs(attrs),
        },
        XmlEvent::Empty { name, attrs } => XmlEvent::Empty {
            name: crate::chars::clone_chars(name),
            attrs: clone_attrs(attrs),
        },
        XmlEvent::End { name } => XmlEvent::End { name: crate::chars::clone_chars(name) },
        XmlEvent::Text { content } => XmlEvent::Text {
            content: crate::chars::clone_chars(content),
        },
    }
}

/// A copy of an event list.
pub fn clone_events(v: &Vec<XmlEvent>) -> (r: Vec<XmlEvent>)
    ensures
        evs_view(r@) == evs_view(v@),
{
    let mut r: Vec<XmlEvent> = Vec::new();
    let mut i: usize = 0;
    while i < v.len()
        invariant
            i <= v@.len(),
            r@.len() == i,
            forall|j: int| 0 <= j < i ==> ev_view(r@[j]) == ev_view(v@[j]),
        decreases v@.len() - i,
    {
        r.push(clone_event(&v[i]));
        i += 1;
    }
    proof {
        assert(evs_view(r@) =~= evs_view(v@));
    }
    r
}

/// The escaped form of one character in an attribute value.
pub open spec fn esc_char_attr(c: char) -> Seq<char> {
    if c == '&' {
        "&amp;"@
    } else if c == '<' {
        "&lt;"@
    } else if c == '>' {
        "&gt;"@
    } else if c == '"' {
        "&quot;"@
    } else if c == '\'' {
        "&apos;"@
    } else {
        seq![c]
    }
}

/// The escaped form of one character in text content.
pub open spec fn esc_char_text(c: char) -> Seq<char> {
    if c == '&' {
        "&amp;"@
    } else if c == '<' {
        "&lt;"@
    } else if c == '>' {
        "&gt;"@
    } else {
        seq![c]
    }
}

pub open spec fn esc_attr(s: Seq<char>) -> Seq<char>
    decreases s.len(),
{
    if s.len() == 0 {
        Seq::empty()
    } else {
        esc_attr(s.drop_last()) + esc_char_attr(s.last())
    }
}

pub open spec fn esc_text(s: Seq<char>) -> Seq<char>
    decreases s.len(),
{
    if s.len() == 0 {
        Seq::empty()
    } else {
        esc_text(s.drop_last()) + esc_char_text(s.last())
    }
}

/// Append a string slice's characters.
pub fn push_str(out: &mut Vec<char>, s: &str)
    ensures
        final(out)@ == old(out)@ + s@,
{
    let n = s.unicode_len();
    let mut i: usize = 0;
    while i < n
        invariant
            i <= n,
            n == s@.len(),
            out@ == old(out)@ + s@.subrange(0, i as int),
        decreases n - i,
    {
        out.push(s.get_char(i));
        proof {
            assert(old(out)@ + s@.subrange(0, i + 1) =~= (old(out)@ + s@.subrange(0, i as int)).push(
                s@[i as int]));
        }
        i += 1;
    }
    proof {
        assert(old(out)@ + s@.subrange(0, n as int) =~= old(out)@ + s@);
    }
}

/// Append an attribute value, escaped.
pub fn push_esc_attr(out: &mut Vec<char>, v: &Vec<char>)
    ensures
        final(out)@ == old(out)@ + esc_attr(v@),
{
    let mut i: usize = 0;
    while i < v.len()
        invariant
            i <= v@.len(),
            out@ == old(out)@ + esc_attr(v@.take(i as int)),
        decreases v@.len() - i,
    {
        let c = v[i];
        proof {
            assert(v@.take(i + 1).drop_last() =~= v@.take(i as int));
            assert(v@.take(i + 1).last() == v@[i as int]);
        }
        if c == '&' {
            push_str(out, "&amp;");
        } else if c == '<' {
            push_str(out, "&lt;");
        } else if c == '>' {
            push_str(out, "&gt;");
        } else if c == '"' {
            push_str(out, "&quot;");
        } else if c == '\'' {
            push_str(out, "&apos;");
        } else {
            out.push(c);
            proof {
                assert(esc_char_attr(c) =~= seq![c]);
                assert(old(out)@ + esc_attr(v@.take(i + 1)) =~= (old(out)@ + esc_attr(v@.take(
                    i as int,
                ))).push(c));
            }
        }
        i += 1;
    }
    proof {
        assert(v@.take(v@.len() as int) =~= v@);
    }
}

/// Append text content, escaped.
pub fn push_esc_text(out: &mut Vec<char>, v: &Vec<char>)
    ensures
        final(out)@ == old(out)@ + esc_text(v@),
{
    let mut i: usize = 0;
    while i < v.len()
        invariant
            i <= v@.len(),
            out@ == old(out)@ + esc_text(v@.take(i as int)),
        decreases v@.len() - i,
    {
        let c = v[i];
        proof {
            assert(v@.take(i + 1).drop_last() =~= v@.take(i as int));
            assert(v@.take(i + 1).last() == v@[i as int]);
        }
        if c == '&' {
            push_str(out, "&amp;");
        } else if c == '<' {
            push_str(out, "&lt;");
        } else if c == '>' {
            push_str(out, "&gt;");
        } else {
            out.push(c);
            proof {
                assert(esc_char_text(c) =~= seq![c]);
                assert(old(out)@ + esc_text(v@.take(i + 1)) =~= (old(out)@ + esc_text(v@.take(
                    i as int,
                ))).push(c));
            }
        }
        i += 1;
    }
    proof {
        assert(v@.take(v@.len() as int) =~= v@);
    }
}

/// The written form of an attribute list: a space before each entry,
/// the value quoted and escaped.
pub open spec fn write_attrs(attrs: Seq<AttrV>) -> Seq<char>
    decreases attrs.len(),
{
    if attrs.len() == 0 {
        Seq::empty()
    } else {
        write_attrs(attrs.drop_last()) + seq![' '] + attrs.last().name + "=\""@ + esc_attr(
            attrs.last().value,
        ) + seq!['"']
    }
}

/// The written form of one event.
pub open spec fn write_event(e: EventV) -> Seq<char> {
    match e {
        EventV::Start { name, attrs } => seq!['<'] + name + write_attrs(attrs) + seq!['>'],
        EventV::Empty { name, attrs } => seq!['<'] + name + write_attrs(attrs) + "/>"@,
        EventV::End { name } => "</"@ + name + seq!['>'],
        EventV::Text { content } => esc_text(content),
    }
}

/// The written form of an event sequence.
pub open spec fn write_events(evs: Seq<EventV>) -> Seq<char>
    decreases evs.len(),
{
    if evs.len() == 0 {
        Seq::empty()
    } else {
        write_events(evs.drop_last()) + write_event(evs.last())
    }
}

/// Append a vector's characters.
pub fn push_chars(out: &mut Vec<char>, v: &Vec<char>)
    ensures
        final(out)@ == old(out)@ + v@,
{
    let mut i: usize = 0;
    while i < v.len()
        invariant
            i <= v@.len(),
            out@ == old(out)@ + v@.take(i as int),
        decreases v@.len() - i,
    {
        out.push(v[i]);
        proof {
            assert(old(out)@ + v@.take(i + 1) =~= (old(out)@ + v@.take(i as int)).push(
                v@[i as int],
            ));
        }
        i += 1;
    }
    proof {
        assert(v@.take(v@.len() as int) =~= v@);
    }
}

/// Append the written form of an attribute list.
fn push_attrs(out: &mut Vec<char>, attrs: &Vec<Attr>)
    ensures
        final(out)@ == old(out)@ + write_attrs(attrs_view(attrs@)),
{
    let mut i: usize = 0;
    while i < attrs.len()
        invariant
            i <= attrs@.len(),
            out@ == old(out)@ + write_attrs(attrs_view(attrs@.take(i as int))),
        decreases attrs@.len() - i,
    {
        proof {
            assert(attrs_view(attrs@.take(i + 1)).drop_last() =~= attrs_view(attrs@.take(i as int)));
            assert(attrs_view(attrs@.take(i + 1)).last() == attr_view(attrs@[i as int]));
        }
        out.push(' ');
        push_chars(out, &attrs[i].name);
        push_str(out, "=\"");
        push_esc_attr(out, &attrs[i].value);
        out.push('"');
        proof {
            assert(out@ =~= old(out)@ + write_attrs(attrs_view(attrs@.take(i + 1))));
        }
        i += 1;
    }
    proof {
        assert(attrs@.take(attrs@.len() as int) =~= attrs@);
    }
}

/// Append the written form of one event.
pub fn push_event(out: &mut Vec<char>, e: &XmlEvent)
    ensures
        final(out)@ == old(out)@ + write_event(ev_view(*e)),
{
    match e {
        XmlEvent::Start { name, attrs } => {
            out.push('<');
            push_chars(out, name);
            push_attrs(out, attrs);
            out.push('>');
            proof {
                assert(out@ =~= old(out)@ + write_event(ev_view(*e)));
            }
        },
        XmlEvent::Empty { name, attrs } => {
            out.push('<');
            push_chars(out, name);
            push_attrs(out, attrs);
            out.push('/');
            out.push('>');
            proof {
                reveal_strlit("/>");
                assert(out@ =~= old(out)@ + write_event(ev_view(*e)));
            }
        },
        XmlEvent::End { name } => {
            out.push('<');
            out.push('/');
            push_chars(out, name);
            out.push('>');
            proof {
                reveal_strlit("</");
                assert(out@ =~= old(out)@ + write_event(ev_view(*e)));
            }
        },
        XmlEvent::Text { content } => {
            push_esc_text(out, content);
        },
    }
}

/// Append the written form of an event sequence.
pub fn push_events(out: &mut Vec<char>, evs: &Vec<XmlEvent>)
    ensures
        final(out)@ == old(out)@ + write_events(evs_view(evs@)),
{
    let mut i: usize = 0;
    while i < evs.len()
        invariant
            i <= evs@.len(),
            out@ == old(out)@ + write_events(evs_view(evs@.take(i as int))),
        decreases evs@.len() - i,
    {
        proof {
            assert(evs_view(evs@.take(i + 1)).drop_last() =~= evs_view(evs@.take(i as int)));
            assert(evs_view(evs@.take(i + 1)).last() == ev_view(evs@[i as int]));
        }
        push_event(out, &evs[i]);
        i += 1;
    }
    proof {
        assert(evs@.take(evs@.len() as int) =~= evs@);
    }
}

} // verus!
