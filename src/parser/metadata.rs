//! metadata handles parsing of GPX metadata.
use crate::error::{ElementKind, ParseError};
use crate::event::{attribute, attribute_value, opt_view, same_text, Attribute, Event, EventCursor};
use crate::parser::copyright::{self, copyright_from, lemma_copyright_bounds, Copyright, CopyrightModel};
use crate::parser::link::{self, lemma_link_bounds, link_from, Link, LinkModel};
use crate::parser::person::{self, lemma_person_bounds, person_from, Person, PersonModel};
use crate::parser::text::{
    self, empty_from, lemma_empty_bounds, lemma_skip_bounds, lemma_text_bounds, result_view, skip_from, text_from,
};
use vstd::prelude::*;

verus! {

/// The extent of a document's content, as its attributes write it.
#[derive(Clone, Debug, Default, PartialEq, Eq)]
pub struct Bounds {
    pub min_lat: Option<String>,
    pub min_lon: Option<String>,
    pub max_lat: Option<String>,
    pub max_lon: Option<String>,
}

/// What a `Bounds` holds.
pub struct BoundsModel {
    pub min_lat: Option<Seq<char>>,
    pub min_lon: Option<Seq<char>>,
    pub max_lat: Option<Seq<char>>,
    pub max_lon: Option<Seq<char>>,
}

impl View for Bounds {
    type V = BoundsModel;

    open spec fn view(&self) -> BoundsModel {
        BoundsModel {
            min_lat: opt_view(self.min_lat),
            min_lon: opt_view(self.min_lon),
            max_lat: opt_view(self.max_lat),
            max_lon: opt_view(self.max_lon),
        }
    }
}

impl BoundsModel {
    pub open spec fn located(attrs: Seq<Attribute>) -> BoundsModel {
        BoundsModel {
            min_lat: attribute_value(attrs, "minlat"@),
            min_lon: attribute_value(attrs, "minlon"@),
            max_lat: attribute_value(attrs, "maxlat"@),
            max_lon: attribute_value(attrs, "maxlon"@),
        }
    }
}

impl Bounds {
    /// The extent that a start-tag's attributes give.
    pub fn located(attrs: &Vec<Attribute>) -> (r: Bounds)
        ensures
            r@ == BoundsModel::located(attrs@),
    {
        Bounds {
            min_lat: attribute(attrs, "minlat"),
            min_lon: attribute(attrs, "minlon"),
            max_lat: attribute(attrs, "maxlat"),
            max_lon: attribute(attrs, "maxlon"),
        }
    }
}

/// Information about a GPX document.
#[derive(Clone, Debug, Default, PartialEq, Eq)]
pub struct Metadata {
    pub name: Option<String>,
    pub description: Option<String>,
    pub author: Option<Person>,
    pub copyright: Option<Copyright>,
    pub link: Option<Link>,
    pub time: Option<String>,
    pub keywords: Option<String>,
    pub bounds: Option<Bounds>,
}

/// What a `Metadata` holds.
pub struct MetadataModel {
    pub name: Option<Seq<char>>,
    pub description: Option<Seq<char>>,
    pub author: Option<PersonModel>,
    pub copyright: Option<CopyrightModel>,
    pub link: Option<LinkModel>,
    pub time: Option<Seq<char>>,
    pub keywords: Option<Seq<char>>,
    pub bounds: Option<BoundsModel>,
}

impl View for Metadata {
    type V = MetadataModel;

    open spec fn view(&self) -> MetadataModel {
        MetadataModel {
            name: opt_view(self.name),
            description: opt_view(self.description),
            author: match self.author {
                Some(a) => Some(a@),
                None => None,
            },
            copyright: match self.copyright {
                Some(c) => Some(c@),
                None => None,
            },
            link: match self.link {
                Some(l) => Some(l@),
                None => None,
            },
            time: opt_view(self.time),
            keywords: opt_view(self.keywords),
            bounds: match self.bounds {
                Some(b) => Some(b@),
                None => None,
            },
        }
    }
}

/// The text leaves of a metadata element.
#[derive(Clone, Copy, Debug, PartialEq, Eq, Structural)]
pub enum MetadataField {
    Name,
    Description,
    Time,
    Keywords,
}

/// What a child tag of a metadata element stands for.
#[derive(Clone, Copy, Debug, PartialEq, Eq, Structural)]
pub enum MetadataChild {
    Leaf(MetadataField),
    Author,
    Copyright,
    Link,
    Bounds,
    Extensions,
}

impl MetadataModel {
    pub open spec fn empty() -> MetadataModel {
        MetadataModel {
            name: None,
            description: None,
            author: None,
            copyright: None,
            link: None,
            time: None,
            keywords: None,
            bounds: None,
        }
    }

    pub open spec fn with_field(self, f: MetadataField, s: Seq<char>) -> MetadataModel {
        match f {
            MetadataField::Name => MetadataModel { name: Some(s), ..self },
            MetadataField::Description => MetadataModel { description: Some(s), ..self },
            MetadataField::Time => MetadataModel { time: Some(s), ..self },
            MetadataField::Keywords => MetadataModel { keywords: Some(s), ..self },
        }
    }
}

impl Metadata {
    fn set(&mut self, f: MetadataField, s: String)
        ensures
            final(self)@ == old(self)@.with_field(f, s@),
    {
        match f {
            MetadataField::Name => self.name = Some(s),
            MetadataField::Description => self.description = Some(s),
            MetadataField::Time => self.time = Some(s),
            MetadataField::Keywords => self.keywords = Some(s),
        }
    }
}

/// The child tags a metadata element allows.
pub open spec fn metadata_child(n: Seq<char>) -> Option<MetadataChild> {
    if n == "name"@ {
        Some(MetadataChild::Leaf(MetadataField::Name))
    } else if n == "desc"@ {
        Some(MetadataChild::Leaf(MetadataField::Description))
    } else if n == "time"@ {
        Some(MetadataChild::Leaf(MetadataField::Time))
    } else if n == "keywords"@ {
        Some(MetadataChild::Leaf(MetadataField::Keywords))
    } else if n == "author"@ {
        Some(MetadataChild::Author)
    } else if n == "copyright"@ {
        Some(MetadataChild::Copyright)
    } else if n == "link"@ {
        Some(MetadataChild::Link)
    } else if n == "bounds"@ {
        Some(MetadataChild::Bounds)
    } else if n == "extensions"@ {
        Some(MetadataChild::Extensions)
    } else {
        None
    }
}

fn metadata_child_of(n: &String) -> (r: Option<MetadataChild>)
    ensures
        r == metadata_child(n@),
{
    if same_text(n, "name") {
        Some(MetadataChild::Leaf(MetadataField::Name))
    } else if same_text(n, "desc") {
        Some(MetadataChild::Leaf(MetadataField::Description))
    } else if same_text(n, "time") {
        Some(MetadataChild::Leaf(MetadataField::Time))
    } else if same_text(n, "keywords") {
        Some(MetadataChild::Leaf(MetadataField::Keywords))
    } else if same_text(n, "author") {
        Some(MetadataChild::Author)
    } else if same_text(n, "copyright") {
        Some(MetadataChild::Copyright)
    } else if same_text(n, "link") {
        Some(MetadataChild::Link)
    } else if same_text(n, "bounds") {
        Some(MetadataChild::Bounds)
    } else if same_text(n, "extensions") {
        Some(MetadataChild::Extensions)
    } else {
        None
    }
}

/// Reading the rest of a metadata element from event `i` on, with `acc` what
/// was read so far: the result, and the position just past its end-tag.
pub open spec fn metadata_from(ev: Seq<Event>, i: nat, acc: MetadataModel) -> (Result<MetadataModel, ParseError>, nat)
    decreases ev.len() - i,
{
    if i >= ev.len() {
        (Err(ParseError::UnterminatedElement(ElementKind::Metadata)), i)
    } else {
        match ev[i as int] {
            Event::StartElement(n, attrs) => match metadata_child(n@) {
                Some(MetadataChild::Leaf(f)) => {
                    proof {
                        lemma_text_bounds(ev, i + 1, Seq::empty());
                    }
                    let (r, j) = text_from(ev, i + 1, Seq::empty());
                    match r {
                        Ok(s) => metadata_from(ev, j, acc.with_field(f, s)),
                        Err(e) => (Err(e), j),
                    }
                },
                Some(MetadataChild::Author) => {
                    proof {
                        lemma_person_bounds(ev, i + 1, PersonModel::empty());
                    }
                    let (r, j) = person_from(ev, i + 1, PersonModel::empty());
                    match r {
                        Ok(p) => metadata_from(ev, j, MetadataModel { author: Some(p), ..acc }),
                        Err(e) => (Err(e), j),
                    }
                },
                Some(MetadataChild::Copyright) => {
                    proof {
                        lemma_copyright_bounds(ev, i + 1, CopyrightModel::located(attrs@));
                    }
                    let (r, j) = copyright_from(ev, i + 1, CopyrightModel::located(attrs@));
                    match r {
                        Ok(c) => metadata_from(ev, j, MetadataModel { copyright: Some(c), ..acc }),
                        Err(e) => (Err(e), j),
                    }
                },
                Some(MetadataChild::Link) => {
                    proof {
                        lemma_link_bounds(ev, i + 1, LinkModel::located(attrs@));
                    }
                    let (r, j) = link_from(ev, i + 1, LinkModel::located(attrs@));
                    match r {
                        Ok(l) => metadata_from(ev, j, MetadataModel { link: Some(l), ..acc }),
                        Err(e) => (Err(e), j),
                    }
                },
                Some(MetadataChild::Bounds) => {
                    proof {
                        lemma_empty_bounds(ev, i + 1, ElementKind::Bounds);
                    }
                    let (r, j) = empty_from(ev, i + 1, ElementKind::Bounds);
                    match r {
                        Ok(_) => metadata_from(
                            ev,
                            j,
                            MetadataModel { bounds: Some(BoundsModel::located(attrs@)), ..acc },
                        ),
                        Err(e) => (Err(e), j),
                    }
                },
                Some(MetadataChild::Extensions) => {
                    proof {
                        lemma_skip_bounds(ev, i + 1, 1);
                    }
                    let (r, j) = skip_from(ev, i + 1, 1);
                    match r {
                        Ok(_) => metadata_from(ev, j, acc),
                        Err(e) => (Err(e), j),
                    }
                },
                None => (Err(ParseError::InvalidChildElement(n, ElementKind::Metadata)), i + 1),
            },
            Event::EndElement(_) => (Ok(acc), i + 1),
            Event::Failure(m) => (Err(ParseError::TokenizationFailure(m)), i + 1),
            _ => metadata_from(ev, i + 1, acc),
        }
    }
}

/// Reading a metadata element never moves back, nor past the end of the events.
pub proof fn lemma_metadata_bounds(ev: Seq<Event>, i: nat, acc: MetadataModel)
    ensures
        i <= metadata_from(ev, i, acc).1,
        i <= ev.len() ==> metadata_from(ev, i, acc).1 <= ev.len(),
    decreases ev.len() - i,
{
    if i < ev.len() {
        match ev[i as int] {
            Event::StartElement(n, attrs) => match metadata_child(n@) {
                Some(MetadataChild::Leaf(f)) => {
                    lemma_text_bounds(ev, i + 1, Seq::empty());
                    let (r, j) = text_from(ev, i + 1, Seq::empty());
                    if let Ok(s) = r {
                        lemma_metadata_bounds(ev, j, acc.with_field(f, s));
                    }
                },
                Some(MetadataChild::Author) => {
                    lemma_person_bounds(ev, i + 1, PersonModel::empty());
                    let (r, j) = person_from(ev, i + 1, PersonModel::empty());
                    if let Ok(p) = r {
                        lemma_metadata_bounds(ev, j, MetadataModel { author: Some(p), ..acc });
                    }
                },
                Some(MetadataChild::Copyright) => {
                    lemma_copyright_bounds(ev, i + 1, CopyrightModel::located(attrs@));
                    let (r, j) = copyright_from(ev, i + 1, CopyrightModel::located(attrs@));
                    if let Ok(c) = r {
                        lemma_metadata_bounds(ev, j, MetadataModel { copyright: Some(c), ..acc });
                    }
                },
                Some(MetadataChild::Link) => {
                    lemma_link_bounds(ev, i + 1, LinkModel::located(attrs@));
                    let (r, j) = link_from(ev, i + 1, LinkModel::located(attrs@));
                    if let Ok(l) = r {
                        lemma_metadata_bounds(ev, j, MetadataModel { link: Some(l), ..acc });
                    }
                },
                Some(MetadataChild::Bounds) => {
                    lemma_empty_bounds(ev, i + 1, ElementKind::Bounds);
                    let (r, j) = empty_from(ev, i + 1, ElementKind::Bounds);
                    if r is Ok {
                        lemma_metadata_bounds(
                            ev,
                            j,
                            MetadataModel { bounds: Some(BoundsModel::located(attrs@)), ..acc },
                        );
                    }
                },
                Some(MetadataChild::Extensions) => {
                    lemma_skip_bounds(ev, i + 1, 1);
                    let (r, j) = skip_from(ev, i + 1, 1);
                    if r is Ok {
                        lemma_metadata_bounds(ev, j, acc);
                    }
                },
                None => {},
            },
            Event::EndElement(_) => {},
            Event::Failure(_) => {},
            _ => lemma_metadata_bounds(ev, i + 1, acc),
        }
    }
}

/// Consumes a metadata element whose start-tag was just read.
pub fn consume(c: &mut EventCursor) -> (r: Result<Metadata, ParseError>)
    requires
        old(c).wf(),
    ensures
        final(c).wf(),
        final(c).events@ == old(c).events@,
        (result_view(r), final(c).pos as nat) == metadata_from(
            old(c).events@,
            old(c).pos as nat,
            MetadataModel::empty(),
        ),
{
    let ghost ev = c.events@;
    let ghost start = c.pos as nat;
    let mut m = Metadata {
        name: None,
        description: None,
        author: None,
        copyright: None,
        link: None,
        time: None,
        keywords: None,
        bounds: None,
    };
    while c.pos < c.events.len()
        invariant
            c.events@ == ev,
            ev == old(c).events@,
            start == old(c).pos,
            c.wf(),
            metadata_from(ev, c.pos as nat, m@) == metadata_from(ev, start, MetadataModel::empty()),
        decreases ev.len() - c.pos,
    {
        let i = c.pos;
        match &c.events[i] {
            Event::StartElement(n, attrs) => match metadata_child_of(n) {
                Some(MetadataChild::Leaf(f)) => {
                    c.pos = i + 1;
                    proof {
                        lemma_text_bounds(ev, (i + 1) as nat, Seq::empty());
                    }
                    match text::consume(c) {
                        Ok(s) => m.set(f, s),
                        Err(e) => return Err(e),
                    }
                },
                Some(MetadataChild::Author) => {
                    c.pos = i + 1;
                    proof {
                        lemma_person_bounds(ev, (i + 1) as nat, PersonModel::empty());
                    }
                    match person::consume(c) {
                        Ok(p) => m.author = Some(p),
                        Err(e) => return Err(e),
                    }
                },
                Some(MetadataChild::Copyright) => {
                    let init = Copyright::located(attrs);
                    c.pos = i + 1;
                    proof {
                        lemma_copyright_bounds(ev, (i + 1) as nat, init@);
                    }
                    match copyright::consume(c, init) {
                        Ok(cr) => m.copyright = Some(cr),
                        Err(e) => return Err(e),
                    }
                },
                Some(MetadataChild::Link) => {
                    let init = Link::located(attrs);
                    c.pos = i + 1;
                    proof {
                        lemma_link_bounds(ev, (i + 1) as nat, init@);
                    }
                    match link::consume(c, init) {
                        Ok(l) => m.link = Some(l),
                        Err(e) => return Err(e),
                    }
                },
                Some(MetadataChild::Bounds) => {
                    let b = Bounds::located(attrs);
                    c.pos = i + 1;
                    proof {
                        lemma_empty_bounds(ev, (i + 1) as nat, ElementKind::Bounds);
                    }
                    match text::consume_empty(c, ElementKind::Bounds) {
                        Ok(()) => m.bounds = Some(b),
                        Err(e) => return Err(e),
                    }
                },
                Some(MetadataChild::Extensions) => {
                    c.pos = i + 1;
                    proof {
                        lemma_skip_bounds(ev, (i + 1) as nat, 1);
                    }
                    match text::skip_extensions(c) {
                        Ok(()) => {},
                        Err(e) => return Err(e),
                    }
                },
                None => {
                    let name = n.clone();
                    c.pos = i + 1;
                    return Err(ParseError::InvalidChildElement(name, ElementKind::Metadata));
                },
            },
            Event::EndElement(_) => {
                c.pos = i + 1;
                return Ok(m);
            },
            Event::Failure(e) => {
                let msg = e.clone();
                c.pos = i + 1;
                return Err(ParseError::TokenizationFailure(msg));
            },
            _ => {
                c.pos = i + 1;
            },
        }
    }
    Err(ParseError::UnterminatedElement(ElementKind::Metadata))
}

} // verus!
