//! waypoint handles parsing of GPX points (`wpt`, `trkpt`).
use crate::error::{ElementKind, ParseError};
use crate::event::{attribute, attribute_value, opt_view, same_text, Attribute, Event, EventCursor};
use crate::parser::text::{self, lemma_skip_bounds, lemma_text_bounds, result_view, skip_from, text_from};
use vstd::prelude::*;

verus! {

/// A point: a position and the optional text fields that describe it.
#[derive(Clone, Debug, Default, PartialEq, Eq)]
pub struct Waypoint {
    /// The `lat` attribute, as written.
    pub latitude: Option<String>,
    /// The `lon` attribute, as written.
    pub longitude: Option<String>,
    pub elevation: Option<String>,
    pub time: Option<String>,
    pub name: Option<String>,
    pub comment: Option<String>,
    pub description: Option<String>,
    pub source: Option<String>,
    pub symbol: Option<String>,
    pub _type: Option<String>,
}

/// What a `Waypoint` holds, as plain text.
pub struct WaypointModel {
    pub latitude: Option<Seq<char>>,
    pub longitude: Option<Seq<char>>,
    pub elevation: Option<Seq<char>>,
    pub time: Option<Seq<char>>,
    pub name: Option<Seq<char>>,
    pub comment: Option<Seq<char>>,
    pub description: Option<Seq<char>>,
    pub source: Option<Seq<char>>,
    pub symbol: Option<Seq<char>>,
    pub _type: Option<Seq<char>>,
}

/// The text leaves of a point.
#[derive(Clone, Copy, Debug, PartialEq, Eq, Structural)]
pub enum PointField {
    Elevation,
    Time,
    Name,
    Comment,
    Description,
    Source,
    Symbol,
    Type,
}

/// What a child tag of a point stands for.
#[derive(Clone, Copy, Debug, PartialEq, Eq, Structural)]
pub enum PointChild {
    Leaf(PointField),
    Extensions,
}

impl View for Waypoint {
    type V = WaypointModel;

    open spec fn view(&self) -> WaypointModel {
        WaypointModel {
            latitude: opt_view(self.latitude),
            longitude: opt_view(self.longitude),
            elevation: opt_view(self.elevation),
            time: opt_view(self.time),
            name: opt_view(self.name),
            comment: opt_view(self.comment),
            description: opt_view(self.description),
            source: opt_view(self.source),
            symbol: opt_view(self.symbol),
            _type: opt_view(self._type),
        }
    }
}

impl WaypointModel {
    /// A point with the position of a start-tag's attributes and no other field.
    pub open spec fn located(attrs: Seq<Attribute>) -> WaypointModel {
        WaypointModel {
            latitude: attribute_value(attrs, "lat"@),
            longitude: attribute_value(attrs, "lon"@),
            elevation: None,
            time: None,
            name: None,
            comment: None,
            description: None,
            source: None,
            symbol: None,
            _type: None,
        }
    }

    pub open spec fn with_field(self, f: PointField, s: Seq<char>) -> WaypointModel {
        match f {
            PointField::Elevation => WaypointModel { elevation: Some(s), ..self },
            PointField::Time => WaypointModel { time: Some(s), ..self },
            PointField::Name => WaypointModel { name: Some(s), ..self },
            PointField::Comment => WaypointModel { comment: Some(s), ..self },
            PointField::Description => WaypointModel { description: Some(s), ..self },
            PointField::Source => WaypointModel { source: Some(s), ..self },
            PointField::Symbol => WaypointModel { symbol: Some(s), ..self },
            PointField::Type => WaypointModel { _type: Some(s), ..self },
        }
    }
}

impl Waypoint {
    /// A point with the position of a start-tag's attributes and no other field.
    pub fn located(attrs: &Vec<Attribute>) -> (r: Waypoint)
        ensures
            r@ == WaypointModel::located(attrs@),
    {
        Waypoint {
            latitude: attribute(attrs, "lat"),
            longitude: attribute(attrs, "lon"),
            elevation: None,
            time: None,
            name: None,
            comment: None,
            description: None,
            source: None,
            symbol: None,
            _type: None,
        }
    }

    fn set(&mut self, f: PointField, s: String)
        ensures
            final(self)@ == old(self)@.with_field(f, s@),
    {
        match f {
            PointField::Elevation => self.elevation = Some(s),
            PointField::Time => self.time = Some(s),
            PointField::Name => self.name = Some(s),
            PointField::Comment => self.comment = Some(s),
            PointField::Description => self.description = Some(s),
            PointField::Source => self.source = Some(s),
            PointField::Symbol => self.symbol = Some(s),
            PointField::Type => self._type = Some(s),
        }
    }
}

/// The child tags a point allows.
pub open spec fn point_child(n: Seq<char>) -> Option<PointChild> {
    if n == "ele"@ {
        Some(PointChild::Leaf(PointField::Elevation))
    } else if n == "time"@ {
        Some(PointChild::Leaf(PointField::Time))
    } else if n == "name"@ {
        Some(PointChild::Leaf(PointField::Name))
    } else if n == "cmt"@ {
        Some(PointChild::Leaf(PointField::Comment))
    } else if n == "desc"@ {
        Some(PointChild::Leaf(PointField::Description))
    } else if n == "src"@ {
        Some(PointChild::Leaf(PointField::Source))
    } else if n == "sym"@ {
        Some(PointChild::Leaf(PointField::Symbol))
    } else if n == "type"@ {
        Some(PointChild::Leaf(PointField::Type))
    } else if n == "extensions"@ {
        Some(PointChild::Extensions)
    } else {
        None
    }
}

fn point_child_of(n: &String) -> (r: Option<PointChild>)
    ensures
        r == point_child(n@),
{
    if same_text(n, "ele") {
        Some(PointChild::Leaf(PointField::Elevation))
    } else if same_text(n, "time") {
        Some(PointChild::Leaf(PointField::Time))
    } else if same_text(n, "name") {
        Some(PointChild::Leaf(PointField::Name))
    } else if same_text(n, "cmt") {
        Some(PointChild::Leaf(PointField::Comment))
    } else if same_text(n, "desc") {
        Some(PointChild::Leaf(PointField::Description))
    } else if same_text(n, "src") {
        Some(PointChild::Leaf(PointField::Source))
    } else if same_text(n, "sym") {
        Some(PointChild::Leaf(PointField::Symbol))
    } else if same_text(n, "type") {
        Some(PointChild::Leaf(PointField::Type))
    } else if same_text(n, "extensions") {
        Some(PointChild::Extensions)
    } else {
        None
    }
}

/// Reading the rest of a point from event `i` on, with `acc` what was read
/// so far: the result, and the position just past the point's end-tag.
pub open spec fn waypoint_from(ev: Seq<Event>, i: nat, acc: WaypointModel) -> (Result<WaypointModel, ParseError>, nat)
    decreases ev.len() - i,
{
    if i >= ev.len() {
        (Err(ParseError::UnterminatedElement(ElementKind::Waypoint)), i)
    } else {
        match ev[i as int] {
            Event::StartElement(n, _) => match point_child(n@) {
                Some(PointChild::Leaf(f)) => {
                    proof {
                        lemma_text_bounds(ev, i + 1, Seq::empty());
                    }
                    let (r, j) = text_from(ev, i + 1, Seq::empty());
                    match r {
                        Ok(s) => waypoint_from(ev, j, acc.with_field(f, s)),
                        Err(e) => (Err(e), j),
                    }
                },
                Some(PointChild::Extensions) => {
                    proof {
                        lemma_skip_bounds(ev, i + 1, 1);
                    }
                    let (r, j) = skip_from(ev, i + 1, 1);
                    match r {
                        Ok(_) => waypoint_from(ev, j, acc),
                        Err(e) => (Err(e), j),
                    }
                },
                None => (Err(ParseError::InvalidChildElement(n, ElementKind::Waypoint)), i + 1),
            },
            Event::EndElement(_) => (Ok(acc), i + 1),
            Event::Failure(m) => (Err(ParseError::TokenizationFailure(m)), i + 1),
            _ => waypoint_from(ev, i + 1, acc),
        }
    }
}

/// Reading a point never moves back, nor past the end of the events.
pub proof fn lemma_waypoint_bounds(ev: Seq<Event>, i: nat, acc: WaypointModel)
    ensures
        i <= waypoint_from(ev, i, acc).1,
        i <= ev.len() ==> waypoint_from(ev, i, acc).1 <= ev.len(),
    decreases ev.len() - i,
{
    if i < ev.len() {
        match ev[i as int] {
            Event::StartElement(n, _) => match point_child(n@) {
                Some(PointChild::Leaf(f)) => {
                    lemma_text_bounds(ev, i + 1, Seq::empty());
                    let (r, j) = text_from(ev, i + 1, Seq::empty());
                    if let Ok(s) = r {
                        lemma_waypoint_bounds(ev, j, acc.with_field(f, s));
                    }
                },
                Some(PointChild::Extensions) => {
                    lemma_skip_bounds(ev, i + 1, 1);
                    let (r, j) = skip_from(ev, i + 1, 1);
                    if r is Ok {
                        lemma_waypoint_bounds(ev, j, acc);
                    }
                },
                None => {},
            },
            Event::EndElement(_) => {},
            Event::Failure(_) => {},
            _ => lemma_waypoint_bounds(ev, i + 1, acc),
        }
    }
}

/// Consumes a point whose start-tag was just read, starting from `init`
/// (the position that the start-tag gave).
pub fn consume(c: &mut EventCursor, init: Waypoint) -> (r: Result<Waypoint, ParseError>)
    requires
        old(c).wf(),
    ensures
        final(c).wf(),
        final(c).events@ == old(c).events@,
        (result_view(r), final(c).pos as nat) == waypoint_from(
            old(c).events@,
            old(c).pos as nat,
            init@,
        ),
{
    let ghost ev = c.events@;
    let ghost start = c.pos as nat;
    let mut w = init;
    while c.pos < c.events.len()
        invariant
            c.events@ == ev,
            ev == old(c).events@,
            start == old(c).pos,
            c.wf(),
            waypoint_from(ev, c.pos as nat, w@) == waypoint_from(ev, start, init@),
        decreases ev.len() - c.pos,
    {
        let i = c.pos;
        match &c.events[i] {
            Event::StartElement(n, _) => match point_child_of(n) {
                Some(PointChild::Leaf(f)) => {
                    c.pos = i + 1;
                    proof {
                        lemma_text_bounds(ev, (i + 1) as nat, Seq::empty());
                    }
                    match text::consume(c) {
                        Ok(s) => w.set(f, s),
                        Err(e) => return Err(e),
                    }
                },
                Some(PointChild::Extensions) => {
                    c.pos = i + 1;
                    proof {
                        lemma_skip_bounds(ev, (i + 1) as nat, 1);
                    }
                    match text::skip_extensions(c) {
                        Ok(()) => {},
                        Err(e) => return Err(e),
                    }
                },
                None => {
                    let name = n.clone();
                    c.pos = i + 1;
                    return Err(ParseError::InvalidChildElement(name, ElementKind::Waypoint));
                },
            },
            Event::EndElement(_) => {
                c.pos = i + 1;
                return Ok(w);
            },
            Event::Failure(m) => {
                let msg = m.clone();
                c.pos = i + 1;
                return Err(ParseError::TokenizationFailure(msg));
            },
            _ => {
                c.pos = i + 1;
            },
        }
    }
    Err(ParseError::UnterminatedElement(ElementKind::Waypoint))
}

} // verus!
