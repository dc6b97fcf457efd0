//! tracksegment handles parsing of GPX track segments.
use crate::error::{ElementKind, ParseError};
use crate::event::{same_text, Event, EventCursor};
use crate::parser::text::{self, lemma_skip_bounds, result_view, skip_from};
use crate::parser::waypoint::{self, lemma_waypoint_bounds, waypoint_from, Waypoint, WaypointModel};
use vstd::prelude::*;

verus! {

/// A track segment: its points, in document order.
#[derive(Clone, Debug, Default, PartialEq, Eq)]
pub struct TrackSegment {
    pub points: Vec<Waypoint>,
}

/// What a `TrackSegment` holds.
pub struct TrackSegmentModel {
    pub points: Seq<WaypointModel>,
}

impl View for TrackSegment {
    type V = TrackSegmentModel;

    open spec fn view(&self) -> TrackSegmentModel {
        TrackSegmentModel { points: self.points@.map_values(|p: Waypoint| p@) }
    }
}

impl TrackSegmentModel {
    pub open spec fn empty() -> TrackSegmentModel {
        TrackSegmentModel { points: Seq::empty() }
    }
}

/// What a child tag of a track segment stands for.
#[derive(Clone, Copy, Debug, PartialEq, Eq, Structural)]
pub enum SegmentChild {
    Point,
    Extensions,
}

/// The child tags a track segment allows.
pub open spec fn segment_child(n: Seq<char>) -> Option<SegmentChild> {
    if n == "trkpt"@ {
        Some(SegmentChild::Point)
    } else if n == "extensions"@ {
        Some(SegmentChild::Extensions)
    } else {
        None
    }
}

fn segment_child_of(n: &String) -> (r: Option<SegmentChild>)
    ensures
        r == segment_child(n@),
{
    if same_text(n, "trkpt") {
        Some(SegmentChild::Point)
    } else if same_text(n, "extensions") {
        Some(SegmentChild::Extensions)
    } else {
        None
    }
}

/// Reading the rest of a track segment from event `i` on, with `acc` what was
/// read so far: the result, and the position just past its end-tag.
pub open spec fn segment_from(ev: Seq<Event>, i: nat, acc: TrackSegmentModel) -> (Result<TrackSegmentModel, ParseError>, nat)
    decreases ev.len() - i,
{
    if i >= ev.len() {
        (Err(ParseError::UnterminatedElement(ElementKind::TrackSegment)), i)
    } else {
        match ev[i as int] {
            Event::StartElement(n, attrs) => match segment_child(n@) {
                Some(SegmentChild::Point) => {
                    proof {
                        lemma_waypoint_bounds(ev, i + 1, WaypointModel::located(attrs@));
                    }
                    let (r, j) = waypoint_from(ev, i + 1, WaypointModel::located(attrs@));
                    match r {
                        Ok(p) => segment_from(ev, j, TrackSegmentModel { points: acc.points.push(p) }),
                        Err(e) => (Err(e), j),
                    }
                },
                Some(SegmentChild::Extensions) => {
                    proof {
                        lemma_skip_bounds(ev, i + 1, 1);
                    }
                    let (r, j) = skip_from(ev, i + 1, 1);
                    match r {
                        Ok(_) => segment_from(ev, j, acc),
                        Err(e) => (Err(e), j),
                    }
                },
                None => (Err(ParseError::InvalidChildElement(n, ElementKind::TrackSegment)), i + 1),
            },
            Event::EndElement(_) => (Ok(acc), i + 1),
            Event::Failure(m) => (Err(ParseError::TokenizationFailure(m)), i + 1),
            _ => segment_from(ev, i + 1, acc),
        }
    }
}

/// Reading a track segment never moves back, nor past the end of the events.
pub proof fn lemma_segment_bounds(ev: Seq<Event>, i: nat, acc: TrackSegmentModel)
    ensures
        i <= segment_from(ev, i, acc).1,
        i <= ev.len() ==> segment_from(ev, i, acc).1 <= ev.len(),
    decreases ev.len() - i,
{
    if i < ev.len() {
        match ev[i as int] {
            Event::StartElement(n, attrs) => match segment_child(n@) {
                Some(SegmentChild::Point) => {
                    lemma_waypoint_bounds(ev, i + 1, WaypointModel::located(attrs@));
                    let (r, j) = waypoint_from(ev, i + 1, WaypointModel::located(attrs@));
                    if let Ok(p) = r {
                        lemma_segment_bounds(ev, j, TrackSegmentModel { points: acc.points.push(p) });
                    }
                },
                Some(SegmentChild::Extensions) => {
                    lemma_skip_bounds(ev, i + 1, 1);
                    let (r, j) = skip_from(ev, i + 1, 1);
                    if r is Ok {
                        lemma_segment_bounds(ev, j, acc);
                    }
                },
                None => {},
            },
            Event::EndElement(_) => {},
            Event::Failure(_) => {},
            _ => lemma_segment_bounds(ev, i + 1, acc),
        }
    }
}

/// Consumes a track segment whose start-tag was just read.
pub fn consume(c: &mut EventCursor) -> (r: Result<TrackSegment, ParseError>)
    requires
        old(c).wf(),
    ensures
        final(c).wf(),
        final(c).events@ == old(c).events@,
        (result_view(r), final(c).pos as nat) == segment_from(
            old(c).events@,
            old(c).pos as nat,
            TrackSegmentModel::empty(),
        ),
{
    let ghost ev = c.events@;
    let ghost start = c.pos as nat;
    let mut seg = TrackSegment { points: Vec::new() };
    assert(seg@.points =~= TrackSegmentModel::empty().points);
    while c.pos < c.events.len()
        invariant
            c.events@ == ev,
            ev == old(c).events@,
            start == old(c).pos,
            c.wf(),
            segment_from(ev, c.pos as nat, seg@) == segment_from(ev, start, TrackSegmentModel::empty()),
        decreases ev.len() - c.pos,
    {
        let i = c.pos;
        match &c.events[i] {
            Event::StartElement(n, attrs) => match segment_child_of(n) {
                Some(SegmentChild::Point) => {
                    let init = Waypoint::located(attrs);
                    c.pos = i + 1;
                    proof {
                        lemma_waypoint_bounds(ev, (i + 1) as nat, init@);
                    }
                    match waypoint::consume(c, init) {
                        Ok(p) => {
                            let ghost before = seg@;
                            seg.points.push(p);
                            assert(seg@.points =~= before.points.push(p@));
                        },
                        Err(e) => return Err(e),
                    }
                },
                Some(SegmentChild::Extensions) => {
                    c.pos = i + 1;
                    proof {
                        lemma_skip_bounds(ev, (i + 1) as nat, 1);
                    }
                    match text::skip_extensions(c) {
                        Ok(()) => {},
                        Err(e) => return Err(e),
                    }
                },
                None => {
                    let name = n.clone();
                    c.pos = i + 1;
                    return Err(ParseError::InvalidChildElement(name, ElementKind::TrackSegment));
                },
            },
            Event::EndElement(_) => {
                c.pos = i + 1;
                return Ok(seg);
            },
            Event::Failure(m) => {
                let msg = m.clone();
                c.pos = i + 1;
                return Err(ParseError::TokenizationFailure(msg));
            },
            _ => {
                c.pos = i + 1;
            },
        }
    }
    Err(ParseError::UnterminatedElement(ElementKind::TrackSegment))
}

} // verus!
