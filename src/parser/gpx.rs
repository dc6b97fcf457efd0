//! gpx handles parsing of GPX documents.
use crate::error::{ElementKind, ParseError};
use crate::event::{attribute, attribute_value, opt_view, same_text, xml_events, Event, EventCursor};
use crate::parser::metadata::{self, lemma_metadata_bounds, metadata_from, Metadata, MetadataModel};
use crate::parser::route::{self, lemma_route_bounds, route_from, Route, RouteModel};
use crate::parser::text::{self, lemma_skip_bounds, result_view, skip_from};
use crate::parser::track::{self, lemma_track_bounds, track_from, Track, TrackModel};
use crate::parser::waypoint::{self, lemma_waypoint_bounds, waypoint_from, Waypoint, WaypointModel};
use vstd::prelude::*;

verus! {

/// Gpx represents a `gpxType`, the root element of a GPX file.
#[derive(Clone, Debug, Default, PartialEq, Eq)]
pub struct Gpx {
    pub version: Option<String>,
    pub creator: Option<String>,
    pub metadata: Option<Metadata>,
    pub waypoints: Vec<Waypoint>,
    pub routes: Vec<Route>,
    pub tracks: Vec<Track>,
}

/// What a `Gpx` holds.
pub struct GpxModel {
    pub version: Option<Seq<char>>,
    pub creator: Option<Seq<char>>,
    pub metadata: Option<MetadataModel>,
    pub waypoints: Seq<WaypointModel>,
    pub routes: Seq<RouteModel>,
    pub tracks: Seq<TrackModel>,
}

impl View for Gpx {
    type V = GpxModel;

    open spec fn view(&self) -> GpxModel {
        GpxModel {
            version: opt_view(self.version),
            creator: opt_view(self.creator),
            metadata: match self.metadata {
                Some(m) => Some(m@),
                None => None,
            },
            waypoints: self.waypoints@.map_values(|w: Waypoint| w@),
            routes: self.routes@.map_values(|r: Route| r@),
            tracks: self.tracks@.map_values(|t: Track| t@),
        }
    }
}

impl GpxModel {
    /// A document with nothing in it.
    pub open spec fn empty() -> GpxModel {
        GpxModel {
            version: None,
            creator: None,
            metadata: None,
            waypoints: Seq::empty(),
            routes: Seq::empty(),
            tracks: Seq::empty(),
        }
    }
}

/// What a child tag of the root stands for.
#[derive(Clone, Copy, Debug, PartialEq, Eq, Structural)]
pub enum GpxChild {
    /// The document's own start-tag.
    Own,
    Metadata,
    Waypoint,
    Route,
    Track,
    Extensions,
}

/// The child tags the root allows.
pub open spec fn gpx_child(n: Seq<char>) -> Option<GpxChild> {
    if n == "gpx"@ {
        Some(GpxChild::Own)
    } else if n == "metadata"@ {
        Some(GpxChild::Metadata)
    } else if n == "wpt"@ {
        Some(GpxChild::Waypoint)
    } else if n == "rte"@ {
        Some(GpxChild::Route)
    } else if n == "trk"@ {
        Some(GpxChild::Track)
    } else if n == "extensions"@ {
        Some(GpxChild::Extensions)
    } else {
        None
    }
}

fn gpx_child_of(n: &String) -> (r: Option<GpxChild>)
    ensures
        r == gpx_child(n@),
{
    if same_text(n, "gpx") {
        Some(GpxChild::Own)
    } else if same_text(n, "metadata") {
        Some(GpxChild::Metadata)
    } else if same_text(n, "wpt") {
        Some(GpxChild::Waypoint)
    } else if same_text(n, "rte") {
        Some(GpxChild::Route)
    } else if same_text(n, "trk") {
        Some(GpxChild::Track)
    } else if same_text(n, "extensions") {
        Some(GpxChild::Extensions)
    } else {
        None
    }
}

/// Reading a document from event `i` on, with `acc` what was read so far:
/// the result, and the position just past the root's end-tag.
pub open spec fn gpx_from(ev: Seq<Event>, i: nat, acc: GpxModel) -> (Result<GpxModel, ParseError>, nat)
    decreases ev.len() - i,
{
    if i >= ev.len() {
        (Err(ParseError::UnterminatedElement(ElementKind::Gpx)), i)
    } else {
        match ev[i as int] {
            Event::StartElement(n, attrs) => match gpx_child(n@) {
                Some(GpxChild::Own) => gpx_from(
                    ev,
                    i + 1,
                    GpxModel {
                        version: attribute_value(attrs@, "version"@),
                        creator: attribute_value(attrs@, "creator"@),
                        ..acc
                    },
                ),
                Some(GpxChild::Metadata) => {
                    proof {
                        lemma_metadata_bounds(ev, i + 1, MetadataModel::empty());
                    }
                    let (r, j) = metadata_from(ev, i + 1, MetadataModel::empty());
                    match r {
                        Ok(m) => gpx_from(ev, j, GpxModel { metadata: Some(m), ..acc }),
                        Err(e) => (Err(e), j),
                    }
                },
                Some(GpxChild::Waypoint) => {
                    proof {
                        lemma_waypoint_bounds(ev, i + 1, WaypointModel::located(attrs@));
                    }
                    let (r, j) = waypoint_from(ev, i + 1, WaypointModel::located(attrs@));
                    match r {
                        Ok(w) => gpx_from(ev, j, GpxModel { waypoints: acc.waypoints.push(w), ..acc }),
                        Err(e) => (Err(e), j),
                    }
                },
                Some(GpxChild::Route) => {
                    proof {
                        lemma_route_bounds(ev, i + 1, RouteModel::empty());
                    }
                    let (r, j) = route_from(ev, i + 1, RouteModel::empty());
                    match r {
                        Ok(t) => gpx_from(ev, j, GpxModel { routes: acc.routes.push(t), ..acc }),
                        Err(e) => (Err(e), j),
                    }
                },
                Some(GpxChild::Track) => {
                    proof {
                        lemma_track_bounds(ev, i + 1, TrackModel::empty());
                    }
                    let (r, j) = track_from(ev, i + 1, TrackModel::empty());
                    match r {
                        Ok(t) => gpx_from(ev, j, GpxModel { tracks: acc.tracks.push(t), ..acc }),
                        Err(e) => (Err(e), j),
                    }
                },
                Some(GpxChild::Extensions) => {
                    proof {
                        lemma_skip_bounds(ev, i + 1, 1);
                    }
                    let (r, j) = skip_from(ev, i + 1, 1);
                    match r {
                        Ok(_) => gpx_from(ev, j, acc),
                        Err(e) => (Err(e), j),
                    }
                },
                None => (Err(ParseError::InvalidChildElement(n, ElementKind::Gpx)), i + 1),
            },
            Event::EndElement(_) => (Ok(acc), i + 1),
            Event::Failure(m) => (Err(ParseError::TokenizationFailure(m)), i + 1),
            _ => gpx_from(ev, i + 1, acc),
        }
    }
}

/// consume consumes an entire GPX element, from the start of the stream to
/// the root's end-tag.
pub fn consume(c: &mut EventCursor) -> (r: Result<Gpx, ParseError>)
    requires
        old(c).wf(),
    ensures
        final(c).wf(),
        final(c).events@ == old(c).events@,
        (result_view(r), final(c).pos as nat) == gpx_from(
            old(c).events@,
            old(c).pos as nat,
            GpxModel::empty(),
        ),
{
    let ghost ev = c.events@;
    let ghost start = c.pos as nat;
    let mut gpx = Gpx {
        version: None,
        creator: None,
        metadata: None,
        waypoints: Vec::new(),
        routes: Vec::new(),
        tracks: Vec::new(),
    };
    assert(gpx@.waypoints =~= Seq::<WaypointModel>::empty());
    assert(gpx@.routes =~= Seq::<RouteModel>::empty());
    assert(gpx@.tracks =~= Seq::<TrackModel>::empty());
    while c.pos < c.events.len()
        invariant
            c.events@ == ev,
            ev == old(c).events@,
            start == old(c).pos,
            c.wf(),
            gpx_from(ev, c.pos as nat, gpx@) == gpx_from(ev, start, GpxModel::empty()),
        decreases ev.len() - c.pos,
    {
        let i = c.pos;
        match &c.events[i] {
            Event::StartElement(n, attrs) => match gpx_child_of(n) {
                Some(GpxChild::Own) => {
                    gpx.version = attribute(attrs, "version");
                    gpx.creator = attribute(attrs, "creator");
                    c.pos = i + 1;
                },
                Some(GpxChild::Metadata) => {
                    c.pos = i + 1;
                    proof {
                        lemma_metadata_bounds(ev, (i + 1) as nat, MetadataModel::empty());
                    }
                    match metadata::consume(c) {
                        Ok(m) => gpx.metadata = Some(m),
                        Err(e) => return Err(e),
                    }
                },
                Some(GpxChild::Waypoint) => {
                    let init = Waypoint::located(attrs);
                    c.pos = i + 1;
                    proof {
                        lemma_waypoint_bounds(ev, (i + 1) as nat, init@);
                    }
                    match waypoint::consume(c, init) {
                        Ok(w) => {
                            let ghost before = gpx@;
                            gpx.waypoints.push(w);
                            assert(gpx@.waypoints =~= before.waypoints.push(w@));
                        },
                        Err(e) => return Err(e),
                    }
                },
                Some(GpxChild::Route) => {
                    c.pos = i + 1;
                    proof {
                        lemma_route_bounds(ev, (i + 1) as nat, RouteModel::empty());
                    }
                    match route::consume(c) {
                        Ok(t) => {
                            let ghost before = gpx@;
                            gpx.routes.push(t);
                            assert(gpx@.routes =~= before.routes.push(t@));
                        },
                        Err(e) => return Err(e),
                    }
                },
                Some(GpxChild::Track) => {
                    c.pos = i + 1;
                    proof {
                        lemma_track_bounds(ev, (i + 1) as nat, TrackModel::empty());
                    }
                    match track::consume(c) {
                        Ok(t) => {
                            let ghost before = gpx@;
                            gpx.tracks.push(t);
                            assert(gpx@.tracks =~= before.tracks.push(t@));
                        },
                        Err(e) => return Err(e),
                    }
                },
                Some(GpxChild::Extensions) => {
                    c.pos = i + 1;
                    proof {
                        lemma_skip_bounds(ev, (i + 1) as nat, 1);
                    }
                    match text::skip_extensions(c) {
                        Ok(()) => {},
                        Err(e) => return Err(e),
                    }
                },
                None => {
                    let name = n.clone();
                    c.pos = i + 1;
                    return Err(ParseError::InvalidChildElement(name, ElementKind::Gpx));
                },
            },
            Event::EndElement(_) => {
                c.pos = i + 1;
                return Ok(gpx);
            },
            Event::Failure(m) => {
                let msg = m.clone();
                c.pos = i + 1;
                return Err(ParseError::TokenizationFailure(msg));
            },
            _ => {
                c.pos = i + 1;
            },
        }
    }
    Err(ParseError::UnterminatedElement(ElementKind::Gpx))
}

/// Parses a whole GPX document from its text.
pub fn parse(text: &str) -> (r: Result<Gpx, ParseError>)
    ensures
        result_view(r) == gpx_from(xml_events(text@), 0, GpxModel::empty()).0,
{
    let mut c = EventCursor::from_str(text);
    consume(&mut c)
}

} // verus!
