//! link handles parsing of GPX links.
use crate::error::{ElementKind, ParseError};
use crate::event::{attribute, attribute_value, opt_view, same_text, Attribute, Event, EventCursor};
use crate::parser::text::{self, lemma_text_bounds, result_view, text_from};
use vstd::prelude::*;

verus! {

/// A link to an external resource.
#[derive(Clone, Debug, Default, PartialEq, Eq)]
pub struct Link {
    /// The `href` attribute.
    pub href: Option<String>,
    pub text: Option<String>,
    pub _type: Option<String>,
}

/// What a `Link` holds.
pub struct LinkModel {
    pub href: Option<Seq<char>>,
    pub text: Option<Seq<char>>,
    pub _type: Option<Seq<char>>,
}

impl View for Link {
    type V = LinkModel;

    open spec fn view(&self) -> LinkModel {
        LinkModel { href: opt_view(self.href), text: opt_view(self.text), _type: opt_view(self._type) }
    }
}

/// The text leaves of a link.
#[derive(Clone, Copy, Debug, PartialEq, Eq, Structural)]
pub enum LinkField {
    Text,
    Type,
}

impl LinkModel {
    /// A link with the target of a start-tag's attributes and no other field.
    pub open spec fn located(attrs: Seq<Attribute>) -> LinkModel {
        LinkModel { href: attribute_value(attrs, "href"@), text: None, _type: None }
    }

    pub open spec fn with_field(self, f: LinkField, s: Seq<char>) -> LinkModel {
        match f {
            LinkField::Text => LinkModel { text: Some(s), ..self },
            LinkField::Type => LinkModel { _type: Some(s), ..self },
        }
    }
}

impl Link {
    /// A link with the target of a start-tag's attributes and no other field.
    pub fn located(attrs: &Vec<Attribute>) -> (r: Link)
        ensures
            r@ == LinkModel::located(attrs@),
    {
        Link { href: attribute(attrs, "href"), text: None, _type: None }
    }

    fn set(&mut self, f: LinkField, s: String)
        ensures
            final(self)@ == old(self)@.with_field(f, s@),
    {
        match f {
            LinkField::Text => self.text = Some(s),
            LinkField::Type => self._type = Some(s),
        }
    }
}

/// The child tags a link allows.
pub open spec fn link_child(n: Seq<char>) -> Option<LinkField> {
    if n == "text"@ {
        Some(LinkField::Text)
    } else if n == "type"@ {
        Some(LinkField::Type)
    } else {
        None
    }
}

fn link_child_of(n: &String) -> (r: Option<LinkField>)
    ensures
        r == link_child(n@),
{
    if same_text(n, "text") {
        Some(LinkField::Text)
    } else if same_text(n, "type") {
        Some(LinkField::Type)
    } else {
        None
    }
}

/// Reading the rest of a link from event `i` on, with `acc` what was read so
/// far: the result, and the position just past its end-tag.
pub open spec fn link_from(ev: Seq<Event>, i: nat, acc: LinkModel) -> (Result<LinkModel, ParseError>, nat)
    decreases ev.len() - i,
{
    if i >= ev.len() {
        (Err(ParseError::UnterminatedElement(ElementKind::Link)), i)
    } else {
        match ev[i as int] {
            Event::StartElement(n, _) => match link_child(n@) {
                Some(f) => {
                    proof {
                        lemma_text_bounds(ev, i + 1, Seq::empty());
                    }
                    let (r, j) = text_from(ev, i + 1, Seq::empty());
                    match r {
                        Ok(s) => link_from(ev, j, acc.with_field(f, s)),
                        Err(e) => (Err(e), j),
                    }
                },
                None => (Err(ParseError::InvalidChildElement(n, ElementKind::Link)), i + 1),
            },
            Event::EndElement(_) => (Ok(acc), i + 1),
            Event::Failure(m) => (Err(ParseError::TokenizationFailure(m)), i + 1),
            _ => link_from(ev, i + 1, acc),
        }
    }
}

/// Reading a link never moves back, nor past the end of the events.
pub proof fn lemma_link_bounds(ev: Seq<Event>, i: nat, acc: LinkModel)
    ensures
        i <= link_from(ev, i, acc).1,
        i <= ev.len() ==> link_from(ev, i, acc).1 <= ev.len(),
    decreases ev.len() - i,
{
    if i < ev.len() {
        match ev[i as int] {
            Event::StartElement(n, _) => match link_child(n@) {
                Some(f) => {
                    lemma_text_bounds(ev, i + 1, Seq::empty());
                    let (r, j) = text_from(ev, i + 1, Seq::empty());
                    if let Ok(s) = r {
                        lemma_link_bounds(ev, j, acc.with_field(f, s));
                    }
                },
                None => {},
            },
            Event::EndElement(_) => {},
            Event::Failure(_) => {},
            _ => lemma_link_bounds(ev, i + 1, acc),
        }
    }
}

/// Consumes a link whose start-tag was just read, starting from `init` (the
/// target that the start-tag gave).
pub fn consume(c: &mut EventCursor, init: Link) -> (r: Result<Link, ParseError>)
    requires
        old(c).wf(),
    ensures
        final(c).wf(),
        final(c).events@ == old(c).events@,
        (result_view(r), final(c).pos as nat) == link_from(old(c).events@, old(c).pos as nat, init@),
{
    let ghost ev = c.events@;
    let ghost start = c.pos as nat;
    let mut l = init;
    while c.pos < c.events.len()
        invariant
            c.events@ == ev,
            ev == old(c).events@,
            start == old(c).pos,
            c.wf(),
            link_from(ev, c.pos as nat, l@) == link_from(ev, start, init@),
        decreases ev.len() - c.pos,
    {
        let i = c.pos;
        match &c.events[i] {
            Event::StartElement(n, _) => match link_child_of(n) {
                Some(f) => {
                    c.pos = i + 1;
                    proof {
                        lemma_text_bounds(ev, (i + 1) as nat, Seq::empty());
                    }
                    match text::consume(c) {
                        Ok(s) => l.set(f, s),
                        Err(e) => return Err(e),
                    }
                },
                None => {
                    let name = n.clone();
                    c.pos = i + 1;
                    return Err(ParseError::InvalidChildElement(name, ElementKind::Link));
                },
            },
            Event::EndElement(_) => {
                c.pos = i + 1;
                return Ok(l);
            },
            Event::Failure(m) => {
                let msg = m.clone();
                c.pos = i + 1;
                return Err(ParseError::TokenizationFailure(msg));
            },
            _ => {
                c.pos = i + 1;
            },
        }
    }
    Err(ParseError::UnterminatedElement(ElementKind::Link))
}

} // verus!
