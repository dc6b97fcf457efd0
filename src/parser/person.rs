//! person handles parsing of GPX persons and organisations.
use crate::error::{ElementKind, ParseError};
use crate::event::{attribute, attribute_value, opt_view, same_text, Attribute, Event, EventCursor};
use crate::parser::link::{self, lemma_link_bounds, link_from, Link, LinkModel};
use crate::parser::text::{self, empty_from, lemma_empty_bounds, lemma_text_bounds, result_view, text_from};
use vstd::prelude::*;

verus! {

/// An e-mail address, split as GPX writes it.
#[derive(Clone, Debug, Default, PartialEq, Eq)]
pub struct Email {
    /// The `id` attribute: the part before the `@`.
    pub id: Option<String>,
    /// The `domain` attribute: the part after the `@`.
    pub domain: Option<String>,
}

/// What an `Email` holds.
pub struct EmailModel {
    pub id: Option<Seq<char>>,
    pub domain: Option<Seq<char>>,
}

impl View for Email {
    type V = EmailModel;

    open spec fn view(&self) -> EmailModel {
        EmailModel { id: opt_view(self.id), domain: opt_view(self.domain) }
    }
}

impl EmailModel {
    pub open spec fn located(attrs: Seq<Attribute>) -> EmailModel {
        EmailModel { id: attribute_value(attrs, "id"@), domain: attribute_value(attrs, "domain"@) }
    }
}

impl Email {
    /// The address that a start-tag's attributes give.
    pub fn located(attrs: &Vec<Attribute>) -> (r: Email)
        ensures
            r@ == EmailModel::located(attrs@),
    {
        Email { id: attribute(attrs, "id"), domain: attribute(attrs, "domain") }
    }
}

/// A person or an organisation.
#[derive(Clone, Debug, Default, PartialEq, Eq)]
pub struct Person {
    pub name: Option<String>,
    pub email: Option<Email>,
    pub link: Option<Link>,
}

/// What a `Person` holds.
pub struct PersonModel {
    pub name: Option<Seq<char>>,
    pub email: Option<EmailModel>,
    pub link: Option<LinkModel>,
}

impl View for Person {
    type V = PersonModel;

    open spec fn view(&self) -> PersonModel {
        PersonModel {
            name: opt_view(self.name),
            email: match self.email {
                Some(e) => Some(e@),
                None => None,
            },
            link: match self.link {
                Some(l) => Some(l@),
                None => None,
            },
        }
    }
}

impl PersonModel {
    pub open spec fn empty() -> PersonModel {
        PersonModel { name: None, email: None, link: None }
    }
}

/// What a child tag of a person stands for.
#[derive(Clone, Copy, Debug, PartialEq, Eq, Structural)]
pub enum PersonChild {
    Name,
    Email,
    Link,
}

/// The child tags a person allows.
pub open spec fn person_child(n: Seq<char>) -> Option<PersonChild> {
    if n == "name"@ {
        Some(PersonChild::Name)
    } else if n == "email"@ {
        Some(PersonChild::Email)
    } else if n == "link"@ {
        Some(PersonChild::Link)
    } else {
        None
    }
}

fn person_child_of(n: &String) -> (r: Option<PersonChild>)
    ensures
        r == person_child(n@),
{
    if same_text(n, "name") {
        Some(PersonChild::Name)
    } else if same_text(n, "email") {
        Some(PersonChild::Email)
    } else if same_text(n, "link") {
        Some(PersonChild::Link)
    } else {
        None
    }
}

/// Reading the rest of a person from event `i` on, with `acc` what was read
/// so far: the result, and the position just past its end-tag.
pub open spec fn person_from(ev: Seq<Event>, i: nat, acc: PersonModel) -> (Result<PersonModel, ParseError>, nat)
    decreases ev.len() - i,
{
    if i >= ev.len() {
        (Err(ParseError::UnterminatedElement(ElementKind::Person)), i)
    } else {
        match ev[i as int] {
            Event::StartElement(n, attrs) => match person_child(n@) {
                Some(PersonChild::Name) => {
                    proof {
                        lemma_text_bounds(ev, i + 1, Seq::empty());
                    }
                    let (r, j) = text_from(ev, i + 1, Seq::empty());
                    match r {
                        Ok(s) => person_from(ev, j, PersonModel { name: Some(s), ..acc }),
                        Err(e) => (Err(e), j),
                    }
                },
                Some(PersonChild::Email) => {
                    proof {
                        lemma_empty_bounds(ev, i + 1, ElementKind::Email);
                    }
                    let (r, j) = empty_from(ev, i + 1, ElementKind::Email);
                    match r {
                        Ok(_) => person_from(
                            ev,
                            j,
                            PersonModel { email: Some(EmailModel::located(attrs@)), ..acc },
                        ),
                        Err(e) => (Err(e), j),
                    }
                },
                Some(PersonChild::Link) => {
                    proof {
                        lemma_link_bounds(ev, i + 1, LinkModel::located(attrs@));
                    }
                    let (r, j) = link_from(ev, i + 1, LinkModel::located(attrs@));
                    match r {
                        Ok(l) => person_from(ev, j, PersonModel { link: Some(l), ..acc }),
                        Err(e) => (Err(e), j),
                    }
                },
                None => (Err(ParseError::InvalidChildElement(n, ElementKind::Person)), i + 1),
            },
            Event::EndElement(_) => (Ok(acc), i + 1),
            Event::Failure(m) => (Err(ParseError::TokenizationFailure(m)), i + 1),
            _ => person_from(ev, i + 1, acc),
        }
    }
}

/// Reading a person never moves back, nor past the end of the events.
pub proof fn lemma_person_bounds(ev: Seq<Event>, i: nat, acc: PersonModel)
    ensures
        i <= person_from(ev, i, acc).1,
        i <= ev.len() ==> person_from(ev, i, acc).1 <= ev.len(),
    decreases ev.len() - i,
{
    if i < ev.len() {
        match ev[i as int] {
            Event::StartElement(n, attrs) => match person_child(n@) {
                Some(PersonChild::Name) => {
                    lemma_text_bounds(ev, i + 1, Seq::empty());
                    let (r, j) = text_from(ev, i + 1, Seq::empty());
                    if let Ok(s) = r {
                        lemma_person_bounds(ev, j, PersonModel { name: Some(s), ..acc });
                    }
                },
                Some(PersonChild::Email) => {
                    lemma_empty_bounds(ev, i + 1, ElementKind::Email);
                    let (r, j) = empty_from(ev, i + 1, ElementKind::Email);
                    if r is Ok {
                        lemma_person_bounds(
                            ev,
                            j,
                            PersonModel { email: Some(EmailModel::located(attrs@)), ..acc },
                        );
                    }
                },
                Some(PersonChild::Link) => {
                    lemma_link_bounds(ev, i + 1, LinkModel::located(attrs@));
                    let (r, j) = link_from(ev, i + 1, LinkModel::located(attrs@));
                    if let Ok(l) = r {
                        lemma_person_bounds(ev, j, PersonModel { link: Some(l), ..acc });
                    }
                },
                None => {},
            },
            Event::EndElement(_) => {},
            Event::Failure(_) => {},
            _ => lemma_person_bounds(ev, i + 1, acc),
        }
    }
}

/// Consumes a person whose start-tag was just read.
pub fn consume(c: &mut EventCursor) -> (r: Result<Person, ParseError>)
    requires
        old(c).wf(),
    ensures
        final(c).wf(),
        final(c).events@ == old(c).events@,
        (result_view(r), final(c).pos as nat) == person_from(
            old(c).events@,
            old(c).pos as nat,
            PersonModel::empty(),
        ),
{
    let ghost ev = c.events@;
    let ghost start = c.pos as nat;
    let mut p = Person { name: None, email: None, link: None };
    while c.pos < c.events.len()
        invariant
            c.events@ == ev,
            ev == old(c).events@,
            start == old(c).pos,
            c.wf(),
            person_from(ev, c.pos as nat, p@) == person_from(ev, start, PersonModel::empty()),
        decreases ev.len() - c.pos,
    {
        let i = c.pos;
        match &c.events[i] {
            Event::StartElement(n, attrs) => match person_child_of(n) {
                Some(PersonChild::Name) => {
                    c.pos = i + 1;
                    proof {
                        lemma_text_bounds(ev, (i + 1) as nat, Seq::empty());
                    }
                    match text::consume(c) {
                        Ok(s) => p.name = Some(s),
                        Err(e) => return Err(e),
                    }
                },
                Some(PersonChild::Email) => {
                    let email = Email::located(attrs);
                    c.pos = i + 1;
                    proof {
                        lemma_empty_bounds(ev, (i + 1) as nat, ElementKind::Email);
                    }
                    match text::consume_empty(c, ElementKind::Email) {
                        Ok(()) => p.email = Some(email),
                        Err(e) => return Err(e),
                    }
                },
                Some(PersonChild::Link) => {
                    let init = Link::located(attrs);
                    c.pos = i + 1;
                    proof {
                        lemma_link_bounds(ev, (i + 1) as nat, init@);
                    }
                    match link::consume(c, init) {
                        Ok(l) => p.link = Some(l),
                        Err(e) => return Err(e),
                    }
                },
                None => {
                    let name = n.clone();
                    c.pos = i + 1;
                    return Err(ParseError::InvalidChildElement(name, ElementKind::Person));
                },
            },
            Event::EndElement(_) => {
                c.pos = i + 1;
                return Ok(p);
            },
            Event::Failure(m) => {
                let msg = m.clone();
                c.pos = i + 1;
                return Err(ParseError::TokenizationFailure(msg));
            },
            _ => {
                c.pos = i + 1;
            },
        }
    }
    Err(ParseError::UnterminatedElement(ElementKind::Person))
}

} // verus!
