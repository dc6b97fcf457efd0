//! copyright handles parsing of GPX copyright notices.
use crate::error::{ElementKind, ParseError};
use crate::event::{attribute, attribute_value, opt_view, same_text, Attribute, Event, EventCursor};
use crate::parser::text::{self, lemma_text_bounds, result_view, text_from};
use vstd::prelude::*;

verus! {

/// A copyright notice: its holder and the terms.
#[derive(Clone, Debug, Default, PartialEq, Eq)]
pub struct Copyright {
    /// The `author` attribute.
    pub author: Option<String>,
    pub year: Option<String>,
    pub license: Option<String>,
}

/// What a `Copyright` holds.
pub struct CopyrightModel {
    pub author: Option<Seq<char>>,
    pub year: Option<Seq<char>>,
    pub license: Option<Seq<char>>,
}

impl View for Copyright {
    type V = CopyrightModel;

    open spec fn view(&self) -> CopyrightModel {
        CopyrightModel { author: opt_view(self.author), year: opt_view(self.year), license: opt_view(self.license) }
    }
}

/// The text leaves of a copyright notice.
#[derive(Clone, Copy, Debug, PartialEq, Eq, Structural)]
pub enum CopyrightField {
    Year,
    License,
}

impl CopyrightModel {
    /// A copyright notice with the holder of a start-tag's attributes and no other field.
    pub open spec fn located(attrs: Seq<Attribute>) -> CopyrightModel {
        CopyrightModel { author: attribute_value(attrs, "author"@), year: None, license: None }
    }

    pub open spec fn with_field(self, f: CopyrightField, s: Seq<char>) -> CopyrightModel {
        match f {
            CopyrightField::Year => CopyrightModel { year: Some(s), ..self },
            CopyrightField::License => CopyrightModel { license: Some(s), ..self },
        }
    }
}

impl Copyright {
    /// A copyright notice with the holder of a start-tag's attributes and no other field.
    pub fn located(attrs: &Vec<Attribute>) -> (r: Copyright)
        ensures
            r@ == CopyrightModel::located(attrs@),
    {
        Copyright { author: attribute(attrs, "author"), year: None, license: None }
    }

    fn set(&mut self, f: CopyrightField, s: String)
        ensures
            final(self)@ == old(self)@.with_field(f, s@),
    {
        match f {
            CopyrightField::Year => self.year = Some(s),
            CopyrightField::License => self.license = Some(s),
        }
    }
}

/// The child tags a copyright allows.
pub open spec fn copyright_child(n: Seq<char>) -> Option<CopyrightField> {
    if n == "year"@ {
        Some(CopyrightField::Year)
    } else if n == "license"@ {
        Some(CopyrightField::License)
    } else {
        None
    }
}

fn copyright_child_of(n: &String) -> (r: Option<CopyrightField>)
    ensures
        r == copyright_child(n@),
{
    if same_text(n, "year") {
        Some(CopyrightField::Year)
    } else if same_text(n, "license") {
        Some(CopyrightField::License)
    } else {
        None
    }
}

/// Reading the rest of a copyright from event `i` on, with `acc` what was read so
/// far: the result, and the position just past its end-tag.
pub open spec fn copyright_from(ev: Seq<Event>, i: nat, acc: CopyrightModel) -> (Result<CopyrightModel, ParseError>, nat)
    decreases ev.len() - i,
{
    if i >= ev.len() {
        (Err(ParseError::UnterminatedElement(ElementKind::Copyright)), i)
    } else {
        match ev[i as int] {
            Event::StartElement(n, _) => match copyright_child(n@) {
                Some(f) => {
                    proof {
                        lemma_text_bounds(ev, i + 1, Seq::empty());
                    }
                    let (r, j) = text_from(ev, i + 1, Seq::empty());
                    match r {
                        Ok(s) => copyright_from(ev, j, acc.with_field(f, s)),
                        Err(e) => (Err(e), j),
                    }
                },
                None => (Err(ParseError::InvalidChildElement(n, ElementKind::Copyright)), i + 1),
            },
            Event::EndElement(_) => (Ok(acc), i + 1),
            Event::Failure(m) => (Err(ParseError::TokenizationFailure(m)), i + 1),
            _ => copyright_from(ev, i + 1, acc),
        }
    }
}

/// Reading a copyright never moves back, nor past the end of the events.
pub proof fn lemma_copyright_bounds(ev: Seq<Event>, i: nat, acc: CopyrightModel)
    ensures
        i <= copyright_from(ev, i, acc).1,
        i <= ev.len() ==> copyright_from(ev, i, acc).1 <= ev.len(),
    decreases ev.len() - i,
{
    if i < ev.len() {
        match ev[i as int] {
            Event::StartElement(n, _) => match copyright_child(n@) {
                Some(f) => {
                    lemma_text_bounds(ev, i + 1, Seq::empty());
                    let (r, j) = text_from(ev, i + 1, Seq::empty());
                    if let Ok(s) = r {
                        lemma_copyright_bounds(ev, j, acc.with_field(f, s));
                    }
                },
                None => {},
            },
            Event::EndElement(_) => {},
            Event::Failure(_) => {},
            _ => lemma_copyright_bounds(ev, i + 1, acc),
        }
    }
}

/// Consumes a copyright whose start-tag was just read, starting from `init` (the
/// holder that the start-tag gave).
pub fn consume(c: &mut EventCursor, init: Copyright) -> (r: Result<Copyright, ParseError>)
    requires
        old(c).wf(),
    ensures
        final(c).wf(),
        final(c).events@ == old(c).events@,
        (result_view(r), final(c).pos as nat) == copyright_from(old(c).events@, old(c).pos as nat, init@),
{
    let ghost ev = c.events@;
    let ghost start = c.pos as nat;
    let mut l = init;
    while c.pos < c.events.len()
        invariant
            c.events@ == ev,
            ev == old(c).events@,
            start == old(c).pos,
            c.wf(),
            copyright_from(ev, c.pos as nat, l@) == copyright_from(ev, start, init@),
        decreases ev.len() - c.pos,
    {
        let i = c.pos;
        match &c.events[i] {
            Event::StartElement(n, _) => match copyright_child_of(n) {
                Some(f) => {
                    c.pos = i + 1;
                    proof {
                        lemma_text_bounds(ev, (i + 1) as nat, Seq::empty());
                    }
                    match text::consume(c) {
                        Ok(s) => l.set(f, s),
                        Err(e) => return Err(e),
                    }
                },
                None => {
                    let name = n.clone();
                    c.pos = i + 1;
                    return Err(ParseError::InvalidChildElement(name, ElementKind::Copyright));
                },
            },
            Event::EndElement(_) => {
                c.pos = i + 1;
                return Ok(l);
            },
            Event::Failure(m) => {
                let msg = m.clone();
                c.pos = i + 1;
                return Err(ParseError::TokenizationFailure(msg));
            },
            _ => {
                c.pos = i + 1;
            },
        }
    }
    Err(ParseError::UnterminatedElement(ElementKind::Copyright))
}

} // verus!
