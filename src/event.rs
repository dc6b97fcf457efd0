//! XML events, the cursor the consumers share, and the text helpers they use.
use vstd::prelude::*;
use xml::reader::XmlEvent as X;

verus! {

/// One attribute of a start-tag: its local name and its decoded value.
#[derive(Clone, Debug, PartialEq, Eq)]
pub struct Attribute {
    pub name: String,
    pub value: String,
}

/// A lexical XML event, as the tokenizer reports it.
#[derive(Clone, Debug, PartialEq, Eq)]
pub enum Event {
    /// A start-tag: its local name and its attributes.
    StartElement(String, Vec<Attribute>),
    /// An end-tag: its local name.
    EndElement(String),
    /// Character data, from text or from a CDATA section.
    Characters(String),
    /// Anything the consumers pass over (document start and end, comments,
    /// processing instructions, whitespace between elements).
    Ignorable,
    /// The tokenizer failed here; its message.
    Failure(String),
}

/// The events of a document, as the outside tokenizer reports them for `text`.
pub uninterp spec fn xml_events(text: Seq<char>) -> Seq<Event>;

/// Relies on xml-rs's `EventReader::from_str` and its event iterator: the
/// events depend on the text alone. Each `XmlEvent` becomes one `Event`; the
/// iterator stops after the first error, which becomes a `Failure`; CDATA
/// becomes character data.
#[verifier::external_body]
fn tokenize(text: &str) -> (r: Vec<Event>)
    ensures
        r@ == xml_events(text@),
{
    xml::reader::EventReader::from_str(text).into_iter().map(|e| match e {
        Ok(X::StartElement { name, attributes, .. }) => Event::StartElement(
            name.local_name,
            attributes.into_iter().map(|a| Attribute { name: a.name.local_name, value: a.value }).collect(),
        ),
        Ok(X::EndElement { name }) => Event::EndElement(name.local_name),
        Ok(X::Characters(t)) => Event::Characters(t),
        Ok(X::CData(t)) => Event::Characters(t),
        Ok(_) => Event::Ignorable,
        Err(err) => Event::Failure(err.to_string()),
    }).collect()
}

/// A cursor over a sequence of events: `pos` is the next event to be read.
pub struct EventCursor {
    pub events: Vec<Event>,
    pub pos: usize,
}

impl EventCursor {
    pub open spec fn wf(&self) -> bool {
        self.pos <= self.events@.len()
    }

    /// A cursor at the start of the given events.
    pub fn new(events: Vec<Event>) -> (r: EventCursor)
        ensures
            r.events@ == events@,
            r.pos == 0,
            r.wf(),
    {
        EventCursor { events, pos: 0 }
    }

    /// A cursor at the start of the events of an XML text.
    pub fn from_str(text: &str) -> (r: EventCursor)
        ensures
            r.events@ == xml_events(text@),
            r.pos == 0,
            r.wf(),
    {
        EventCursor { events: tokenize(text), pos: 0 }
    }
}

/// Whether two texts are equal.
pub fn same_text(a: &String, b: &str) -> (r: bool)
    ensures
        r == (a@ == b@),
{
    *a == String::from_str(b)
}

/// The value of the first attribute with the given name, if any.
pub open spec fn attribute_value(attrs: Seq<Attribute>, key: Seq<char>) -> Option<Seq<char>>
    decreases attrs.len(),
{
    if attrs.len() == 0 {
        None
    } else if attrs[0].name@ == key {
        Some(attrs[0].value@)
    } else {
        attribute_value(attrs.drop_first(), key)
    }
}

/// The view of an optional text.
pub open spec fn opt_view(s: Option<String>) -> Option<Seq<char>> {
    match s {
        Some(t) => Some(t@),
        None => None,
    }
}

/// Looks up an attribute by name.
pub fn attribute(attrs: &Vec<Attribute>, key: &str) -> (r: Option<String>)
    ensures
        opt_view(r) == attribute_value(attrs@, key@),
{
    let mut i: usize = 0;
    assert(attrs@.subrange(0, attrs@.len() as int) =~= attrs@);
    while i < attrs.len()
        invariant
            i <= attrs@.len(),
            attribute_value(attrs@.subrange(i as int, attrs@.len() as int), key@)
                == attribute_value(attrs@, key@),
        decreases attrs@.len() - i,
    {
        assert(attrs@.subrange(i as int + 1, attrs@.len() as int) =~= attrs@.subrange(
            i as int,
            attrs@.len() as int,
        ).drop_first());
        if same_text(&attrs[i].name, key) {
            return Some(attrs[i].value.clone());
        }
        i = i + 1;
    }
    None
}

/// Unicode `White_Space`, the characters that trimming removes.
pub open spec fn is_space(c: char) -> bool {
    ('\t' <= c && c <= '\r') || c == ' ' || c == '\u{85}' || c == '\u{a0}' || c == '\u{1680}'
        || ('\u{2000}' <= c && c <= '\u{200a}') || c == '\u{2028}' || c == '\u{2029}' || c
        == '\u{202f}' || c == '\u{205f}' || c == '\u{3000}'
}

fn is_space_char(c: char) -> (r: bool)
    ensures
        r == is_space(c),
{
    ('\t' <= c && c <= '\r') || c == ' ' || c == '\u{85}' || c == '\u{a0}' || c == '\u{1680}'
        || ('\u{2000}' <= c && c <= '\u{200a}') || c == '\u{2028}' || c == '\u{2029}' || c
        == '\u{202f}' || c == '\u{205f}' || c == '\u{3000}'
}

/// `s` without its leading white space.
pub open spec fn trim_start(s: Seq<char>) -> Seq<char>
    decreases s.len(),
{
    if s.len() > 0 && is_space(s[0]) {
        trim_start(s.drop_first())
    } else {
        s
    }
}

/// `s` without its trailing white space.
pub open spec fn trim_end(s: Seq<char>) -> Seq<char>
    decreases s.len(),
{
    if s.len() > 0 && is_space(s.last()) {
        trim_end(s.drop_last())
    } else {
        s
    }
}

/// `s` without leading and trailing white space.
pub open spec fn trim(s: Seq<char>) -> Seq<char> {
    trim_end(trim_start(s))
}

/// Removes leading and trailing white space.
pub fn trimmed(s: &String) -> (r: String)
    ensures
        r@ == trim(s@),
{
    let t = s.as_str();
    let n = t.unicode_len();
    let mut a: usize = 0;
    assert(t@.subrange(0, n as int) =~= t@);
    while a < n && is_space_char(t.get_char(a))
        invariant
            a <= n,
            n == t@.len(),
            t@ == s@,
            trim_start(t@.subrange(a as int, n as int)) == trim_start(t@),
        decreases n - a,
    {
        assert(t@.subrange(a as int + 1, n as int) =~= t@.subrange(a as int, n as int).drop_first());
        a = a + 1;
    }
    assert(trim_start(t@.subrange(a as int, n as int)) == t@.subrange(a as int, n as int));
    let mut b: usize = n;
    while b > a && is_space_char(t.get_char(b - 1))
        invariant
            a <= b <= n,
            n == t@.len(),
            t@ == s@,
            trim_end(t@.subrange(a as int, b as int)) == trim(t@),
        decreases b - a,
    {
        assert(t@.subrange(a as int, b - 1) =~= t@.subrange(a as int, b as int).drop_last());
        b = b - 1;
    }
    assert(trim_end(t@.subrange(a as int, b as int)) == t@.subrange(a as int, b as int));
    String::from_str(t.substring_char(a, b))
}

} // verus!
