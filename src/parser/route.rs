//! route handles parsing of GPX routes.
use crate::error::{ElementKind, ParseError};
use crate::event::{opt_view, same_text, Event, EventCursor};
use crate::parser::text::{self, lemma_skip_bounds, lemma_text_bounds, result_view, skip_from, text_from};
use crate::parser::waypoint::{self, lemma_waypoint_bounds, waypoint_from, Waypoint, WaypointModel};
use vstd::prelude::*;

verus! {

/// A route: optional text fields and its points, in document order.
#[derive(Clone, Debug, Default, PartialEq, Eq)]
pub struct Route {
    pub name: Option<String>,
    pub comment: Option<String>,
    pub description: Option<String>,
    pub source: Option<String>,
    pub _type: Option<String>,
    pub points: Vec<Waypoint>,
}

/// What a `Route` holds.
pub struct RouteModel {
    pub name: Option<Seq<char>>,
    pub comment: Option<Seq<char>>,
    pub description: Option<Seq<char>>,
    pub source: Option<Seq<char>>,
    pub _type: Option<Seq<char>>,
    pub points: Seq<WaypointModel>,
}

impl View for Route {
    type V = RouteModel;

    open spec fn view(&self) -> RouteModel {
        RouteModel {
            name: opt_view(self.name),
            comment: opt_view(self.comment),
            description: opt_view(self.description),
            source: opt_view(self.source),
            _type: opt_view(self._type),
            points: self.points@.map_values(|p: Waypoint| p@),
        }
    }
}

/// The text leaves of a route.
#[derive(Clone, Copy, Debug, PartialEq, Eq, Structural)]
pub enum RouteField {
    Name,
    Comment,
    Description,
    Source,
    Type,
}

/// What a child tag of a route stands for.
#[derive(Clone, Copy, Debug, PartialEq, Eq, Structural)]
pub enum RouteChild {
    Leaf(RouteField),
    Point,
    Extensions,
}

impl RouteModel {
    /// A route with no field set and no point.
    pub open spec fn empty() -> RouteModel {
        RouteModel {
            name: None,
            comment: None,
            description: None,
            source: None,
            _type: None,
            points: Seq::empty(),
        }
    }

    pub open spec fn with_field(self, f: RouteField, s: Seq<char>) -> RouteModel {
        match f {
            RouteField::Name => RouteModel { name: Some(s), ..self },
            RouteField::Comment => RouteModel { comment: Some(s), ..self },
            RouteField::Description => RouteModel { description: Some(s), ..self },
            RouteField::Source => RouteModel { source: Some(s), ..self },
            RouteField::Type => RouteModel { _type: Some(s), ..self },
        }
    }
}

impl Route {
    /// A route with no field set and no point.
    pub fn new() -> (r: Route)
        ensures
            r@ == RouteModel::empty(),
    {
        let r = Route {
            name: None,
            comment: None,
            description: None,
            source: None,
            _type: None,
            points: Vec::new(),
        };
        assert(r@.points =~= Seq::<WaypointModel>::empty());
        r
    }

    fn set(&mut self, f: RouteField, s: String)
        ensures
            final(self)@ == old(self)@.with_field(f, s@),
    {
        match f {
            RouteField::Name => self.name = Some(s),
            RouteField::Comment => self.comment = Some(s),
            RouteField::Description => self.description = Some(s),
            RouteField::Source => self.source = Some(s),
            RouteField::Type => self._type = Some(s),
        }
    }
}

/// The child tags a route allows.
pub open spec fn route_child(n: Seq<char>) -> Option<RouteChild> {
    if n == "name"@ {
        Some(RouteChild::Leaf(RouteField::Name))
    } else if n == "cmt"@ {
        Some(RouteChild::Leaf(RouteField::Comment))
    } else if n == "desc"@ {
        Some(RouteChild::Leaf(RouteField::Description))
    } else if n == "src"@ {
        Some(RouteChild::Leaf(RouteField::Source))
    } else if n == "type"@ {
        Some(RouteChild::Leaf(RouteField::Type))
    } else if n == "rtept"@ {
        Some(RouteChild::Point)
    } else if n == "extensions"@ {
        Some(RouteChild::Extensions)
    } else {
        None
    }
}

fn route_child_of(n: &String) -> (r: Option<RouteChild>)
    ensures
        r == route_child(n@),
{
    if same_text(n, "name") {
        Some(RouteChild::Leaf(RouteField::Name))
    } else if same_text(n, "cmt") {
        Some(RouteChild::Leaf(RouteField::Comment))
    } else if same_text(n, "desc") {
        Some(RouteChild::Leaf(RouteField::Description))
    } else if same_text(n, "src") {
        Some(RouteChild::Leaf(RouteField::Source))
    } else if same_text(n, "type") {
        Some(RouteChild::Leaf(RouteField::Type))
    } else if same_text(n, "rtept") {
        Some(RouteChild::Point)
    } else if same_text(n, "extensions") {
        Some(RouteChild::Extensions)
    } else {
        None
    }
}

/// Reading a route from event `i` on, with `acc` what was read so far: the
/// result, and the position just past its end-tag.
pub open spec fn route_from(ev: Seq<Event>, i: nat, acc: RouteModel) -> (Result<RouteModel, ParseError>, nat)
    decreases ev.len() - i,
{
    if i >= ev.len() {
        (Err(ParseError::UnterminatedElement(ElementKind::Route)), i)
    } else {
        match ev[i as int] {
            Event::StartElement(n, attrs) => match route_child(n@) {
                Some(RouteChild::Leaf(f)) => {
                    proof {
                        lemma_text_bounds(ev, i + 1, Seq::empty());
                    }
                    let (r, j) = text_from(ev, i + 1, Seq::empty());
                    match r {
                        Ok(s) => route_from(ev, j, acc.with_field(f, s)),
                        Err(e) => (Err(e), j),
                    }
                },
                Some(RouteChild::Point) => {
                    proof {
                        lemma_waypoint_bounds(ev, i + 1, WaypointModel::located(attrs@));
                    }
                    let (r, j) = waypoint_from(ev, i + 1, WaypointModel::located(attrs@));
                    match r {
                        Ok(p) => route_from(ev, j, RouteModel { points: acc.points.push(p), ..acc }),
                        Err(e) => (Err(e), j),
                    }
                },
                Some(RouteChild::Extensions) => {
                    proof {
                        lemma_skip_bounds(ev, i + 1, 1);
                    }
                    let (r, j) = skip_from(ev, i + 1, 1);
                    match r {
                        Ok(_) => route_from(ev, j, acc),
                        Err(e) => (Err(e), j),
                    }
                },
                None => (Err(ParseError::InvalidChildElement(n, ElementKind::Route)), i + 1),
            },
            Event::EndElement(_) => (Ok(acc), i + 1),
            Event::Failure(m) => (Err(ParseError::TokenizationFailure(m)), i + 1),
            _ => route_from(ev, i + 1, acc),
        }
    }
}

/// Reading a route never moves back, nor past the end of the events.
pub proof fn lemma_route_bounds(ev: Seq<Event>, i: nat, acc: RouteModel)
    ensures
        i <= route_from(ev, i, acc).1,
        i <= ev.len() ==> route_from(ev, i, acc).1 <= ev.len(),
    decreases ev.len() - i,
{
    if i < ev.len() {
        match ev[i as int] {
            Event::StartElement(n, attrs) => match route_child(n@) {
                Some(RouteChild::Leaf(f)) => {
                    lemma_text_bounds(ev, i + 1, Seq::empty());
                    let (r, j) = text_from(ev, i + 1, Seq::empty());
                    if let Ok(s) = r {
                        lemma_route_bounds(ev, j, acc.with_field(f, s));
                    }
                },
                Some(RouteChild::Point) => {
                    lemma_waypoint_bounds(ev, i + 1, WaypointModel::located(attrs@));
                    let (r, j) = waypoint_from(ev, i + 1, WaypointModel::located(attrs@));
                    if let Ok(p) = r {
                        lemma_route_bounds(ev, j, RouteModel { points: acc.points.push(p), ..acc });
                    }
                },
                Some(RouteChild::Extensions) => {
                    lemma_skip_bounds(ev, i + 1, 1);
                    let (r, j) = skip_from(ev, i + 1, 1);
                    if r is Ok {
                        lemma_route_bounds(ev, j, acc);
                    }
                },
                None => {},
            },
            Event::EndElement(_) => {},
            Event::Failure(_) => {},
            _ => lemma_route_bounds(ev, i + 1, acc),
        }
    }
}

/// Consumes a route whose start-tag was just read.
pub fn consume(c: &mut EventCursor) -> (r: Result<Route, ParseError>)
    requires
        old(c).wf(),
    ensures
        final(c).wf(),
        final(c).events@ == old(c).events@,
        (result_view(r), final(c).pos as nat) == route_from(
            old(c).events@,
            old(c).pos as nat,
            RouteModel::empty(),
        ),
{
    let ghost ev = c.events@;
    let ghost start = c.pos as nat;
    let mut route = Route::new();
    while c.pos < c.events.len()
        invariant
            c.events@ == ev,
            ev == old(c).events@,
            start == old(c).pos,
            c.wf(),
            route_from(ev, c.pos as nat, route@) == route_from(ev, start, RouteModel::empty()),
        decreases ev.len() - c.pos,
    {
        let i = c.pos;
        match &c.events[i] {
            Event::StartElement(n, attrs) => match route_child_of(n) {
                Some(RouteChild::Leaf(f)) => {
                    c.pos = i + 1;
                    proof {
                        lemma_text_bounds(ev, (i + 1) as nat, Seq::empty());
                    }
                    match text::consume(c) {
                        Ok(s) => route.set(f, s),
                        Err(e) => return Err(e),
                    }
                },
                Some(RouteChild::Point) => {
                    let init = Waypoint::located(attrs);
                    c.pos = i + 1;
                    proof {
                        lemma_waypoint_bounds(ev, (i + 1) as nat, init@);
                    }
                    match waypoint::consume(c, init) {
                        Ok(p) => {
                            let ghost before = route@;
                            route.points.push(p);
                            assert(route@.points =~= before.points.push(p@));
                        },
                        Err(e) => return Err(e),
                    }
                },
                Some(RouteChild::Extensions) => {
                    c.pos = i + 1;
                    proof {
                        lemma_skip_bounds(ev, (i + 1) as nat, 1);
                    }
                    match text::skip_extensions(c) {
                        Ok(()) => {},
                        Err(e) => return Err(e),
                    }
                },
                None => {
                    let name = n.clone();
                    c.pos = i + 1;
                    return Err(ParseError::InvalidChildElement(name, ElementKind::Route));
                },
            },
            Event::EndElement(_) => {
                c.pos = i + 1;
                return Ok(route);
            },
            Event::Failure(m) => {
                let msg = m.clone();
                c.pos = i + 1;
                return Err(ParseError::TokenizationFailure(msg));
            },
            _ => {
                c.pos = i + 1;
            },
        }
    }
    Err(ParseError::UnterminatedElement(ElementKind::Route))
}

} // verus!
