//! track handles parsing of GPX tracks.
use crate::error::{ElementKind, ParseError};
use crate::event::{opt_view, same_text, Event, EventCursor};
use crate::parser::text::{self, lemma_skip_bounds, lemma_text_bounds, result_view, skip_from, text_from};
use crate::parser::tracksegment::{self, lemma_segment_bounds, segment_from, TrackSegment, TrackSegmentModel};
use vstd::prelude::*;

verus! {

/// A track: optional text fields and its segments, in document order.
#[derive(Clone, Debug, Default, PartialEq, Eq)]
pub struct Track {
    pub name: Option<String>,
    pub comment: Option<String>,
    pub description: Option<String>,
    pub source: Option<String>,
    pub _type: Option<String>,
    pub segments: Vec<TrackSegment>,
}

/// What a `Track` holds.
pub struct TrackModel {
    pub name: Option<Seq<char>>,
    pub comment: Option<Seq<char>>,
    pub description: Option<Seq<char>>,
    pub source: Option<Seq<char>>,
    pub _type: Option<Seq<char>>,
    pub segments: Seq<TrackSegmentModel>,
}

impl View for Track {
    type V = TrackModel;

    open spec fn view(&self) -> TrackModel {
        TrackModel {
            name: opt_view(self.name),
            comment: opt_view(self.comment),
            description: opt_view(self.description),
            source: opt_view(self.source),
            _type: opt_view(self._type),
            segments: self.segments@.map_values(|s: TrackSegment| s@),
        }
    }
}

/// The text leaves of a track.
#[derive(Clone, Copy, Debug, PartialEq, Eq, Structural)]
pub enum TrackField {
    Name,
    Comment,
    Description,
    Source,
    Type,
}

/// What a child tag of a track stands for.
#[derive(Clone, Copy, Debug, PartialEq, Eq, Structural)]
pub enum TrackChild {
    /// The track's own start-tag, read when the cursor starts before it.
    Own,
    Leaf(TrackField),
    Segment,
    Extensions,
}

impl TrackModel {
    /// A track with no field set and no segment.
    pub open spec fn empty() -> TrackModel {
        TrackModel {
            name: None,
            comment: None,
            description: None,
            source: None,
            _type: None,
            segments: Seq::empty(),
        }
    }

    pub open spec fn with_field(self, f: TrackField, s: Seq<char>) -> TrackModel {
        match f {
            TrackField::Name => TrackModel { name: Some(s), ..self },
            TrackField::Comment => TrackModel { comment: Some(s), ..self },
            TrackField::Description => TrackModel { description: Some(s), ..self },
            TrackField::Source => TrackModel { source: Some(s), ..self },
            TrackField::Type => TrackModel { _type: Some(s), ..self },
        }
    }
}

impl Track {
    /// A track with no field set and no segment.
    pub fn new() -> (r: Track)
        ensures
            r@ == TrackModel::empty(),
    {
        let r = Track {
            name: None,
            comment: None,
            description: None,
            source: None,
            _type: None,
            segments: Vec::new(),
        };
        assert(r@.segments =~= Seq::<TrackSegmentModel>::empty());
        r
    }

    fn set(&mut self, f: TrackField, s: String)
        ensures
            final(self)@ == old(self)@.with_field(f, s@),
    {
        match f {
            TrackField::Name => self.name = Some(s),
            TrackField::Comment => self.comment = Some(s),
            TrackField::Description => self.description = Some(s),
            TrackField::Source => self.source = Some(s),
            TrackField::Type => self._type = Some(s),
        }
    }
}

/// The child tags a track allows.
pub open spec fn track_child(n: Seq<char>) -> Option<TrackChild> {
    if n == "trk"@ {
        Some(TrackChild::Own)
    } else if n == "name"@ {
        Some(TrackChild::Leaf(TrackField::Name))
    } else if n == "cmt"@ {
        Some(TrackChild::Leaf(TrackField::Comment))
    } else if n == "desc"@ {
        Some(TrackChild::Leaf(TrackField::Description))
    } else if n == "src"@ {
        Some(TrackChild::Leaf(TrackField::Source))
    } else if n == "type"@ {
        Some(TrackChild::Leaf(TrackField::Type))
    } else if n == "trkseg"@ {
        Some(TrackChild::Segment)
    } else if n == "extensions"@ {
        Some(TrackChild::Extensions)
    } else {
        None
    }
}

fn track_child_of(n: &String) -> (r: Option<TrackChild>)
    ensures
        r == track_child(n@),
{
    if same_text(n, "trk") {
        Some(TrackChild::Own)
    } else if same_text(n, "name") {
        Some(TrackChild::Leaf(TrackField::Name))
    } else if same_text(n, "cmt") {
        Some(TrackChild::Leaf(TrackField::Comment))
    } else if same_text(n, "desc") {
        Some(TrackChild::Leaf(TrackField::Description))
    } else if same_text(n, "src") {
        Some(TrackChild::Leaf(TrackField::Source))
    } else if same_text(n, "type") {
        Some(TrackChild::Leaf(TrackField::Type))
    } else if same_text(n, "trkseg") {
        Some(TrackChild::Segment)
    } else if same_text(n, "extensions") {
        Some(TrackChild::Extensions)
    } else {
        None
    }
}

/// Reading a track from event `i` on, with `acc` what was read so far: the
/// result, and the position just past its end-tag.
pub open spec fn track_from(ev: Seq<Event>, i: nat, acc: TrackModel) -> (Result<TrackModel, ParseError>, nat)
    decreases ev.len() - i,
{
    if i >= ev.len() {
        (Err(ParseError::UnterminatedElement(ElementKind::Track)), i)
    } else {
        match ev[i as int] {
            Event::StartElement(n, _) => match track_child(n@) {
                Some(TrackChild::Own) => track_from(ev, i + 1, acc),
                Some(TrackChild::Leaf(f)) => {
                    proof {
                        lemma_text_bounds(ev, i + 1, Seq::empty());
                    }
                    let (r, j) = text_from(ev, i + 1, Seq::empty());
                    match r {
                        Ok(s) => track_from(ev, j, acc.with_field(f, s)),
                        Err(e) => (Err(e), j),
                    }
                },
                Some(TrackChild::Segment) => {
                    proof {
                        lemma_segment_bounds(ev, i + 1, TrackSegmentModel::empty());
                    }
                    let (r, j) = segment_from(ev, i + 1, TrackSegmentModel::empty());
                    match r {
                        Ok(s) => track_from(ev, j, TrackModel { segments: acc.segments.push(s), ..acc }),
                        Err(e) => (Err(e), j),
                    }
                },
                Some(TrackChild::Extensions) => {
                    proof {
                        lemma_skip_bounds(ev, i + 1, 1);
                    }
                    let (r, j) = skip_from(ev, i + 1, 1);
                    match r {
                        Ok(_) => track_from(ev, j, acc),
                        Err(e) => (Err(e), j),
                    }
                },
                None => (Err(ParseError::InvalidChildElement(n, ElementKind::Track)), i + 1),
            },
            Event::EndElement(_) => (Ok(acc), i + 1),
            Event::Failure(m) => (Err(ParseError::TokenizationFailure(m)), i + 1),
            _ => track_from(ev, i + 1, acc),
        }
    }
}

/// Reading a track never moves back, nor past the end of the events.
pub proof fn lemma_track_bounds(ev: Seq<Event>, i: nat, acc: TrackModel)
    ensures
        i <= track_from(ev, i, acc).1,
        i <= ev.len() ==> track_from(ev, i, acc).1 <= ev.len(),
    decreases ev.len() - i,
{
    if i < ev.len() {
        match ev[i as int] {
            Event::StartElement(n, _) => match track_child(n@) {
                Some(TrackChild::Own) => lemma_track_bounds(ev, i + 1, acc),
                Some(TrackChild::Leaf(f)) => {
                    lemma_text_bounds(ev, i + 1, Seq::empty());
                    let (r, j) = text_from(ev, i + 1, Seq::empty());
                    if let Ok(s) = r {
                        lemma_track_bounds(ev, j, acc.with_field(f, s));
                    }
                },
                Some(TrackChild::Segment) => {
                    lemma_segment_bounds(ev, i + 1, TrackSegmentModel::empty());
                    let (r, j) = segment_from(ev, i + 1, TrackSegmentModel::empty());
                    if let Ok(s) = r {
                        lemma_track_bounds(ev, j, TrackModel { segments: acc.segments.push(s), ..acc });
                    }
                },
                Some(TrackChild::Extensions) => {
                    lemma_skip_bounds(ev, i + 1, 1);
                    let (r, j) = skip_from(ev, i + 1, 1);
                    if r is Ok {
                        lemma_track_bounds(ev, j, acc);
                    }
                },
                None => {},
            },
            Event::EndElement(_) => {},
            Event::Failure(_) => {},
            _ => lemma_track_bounds(ev, i + 1, acc),
        }
    }
}

/// consume consumes a GPX track from the cursor until it ends. The cursor may
/// stand before the track's start-tag or just past it.
pub fn consume(c: &mut EventCursor) -> (r: Result<Track, ParseError>)
    requires
        old(c).wf(),
    ensures
        final(c).wf(),
        final(c).events@ == old(c).events@,
        (result_view(r), final(c).pos as nat) == track_from(
            old(c).events@,
            old(c).pos as nat,
            TrackModel::empty(),
        ),
{
    let ghost ev = c.events@;
    let ghost start = c.pos as nat;
    let mut track = Track::new();
    while c.pos < c.events.len()
        invariant
            c.events@ == ev,
            ev == old(c).events@,
            start == old(c).pos,
            c.wf(),
            track_from(ev, c.pos as nat, track@) == track_from(ev, start, TrackModel::empty()),
        decreases ev.len() - c.pos,
    {
        let i = c.pos;
        match &c.events[i] {
            Event::StartElement(n, _) => match track_child_of(n) {
                Some(TrackChild::Own) => {
                    c.pos = i + 1;
                },
                Some(TrackChild::Leaf(f)) => {
                    c.pos = i + 1;
                    proof {
                        lemma_text_bounds(ev, (i + 1) as nat, Seq::empty());
                    }
                    match text::consume(c) {
                        Ok(s) => track.set(f, s),
                        Err(e) => return Err(e),
                    }
                },
                Some(TrackChild::Segment) => {
                    c.pos = i + 1;
                    proof {
                        lemma_segment_bounds(ev, (i + 1) as nat, TrackSegmentModel::empty());
                    }
                    match tracksegment::consume(c) {
                        Ok(s) => {
                            let ghost before = track@;
                            track.segments.push(s);
                            assert(track@.segments =~= before.segments.push(s@));
                        },
                        Err(e) => return Err(e),
                    }
                },
                Some(TrackChild::Extensions) => {
                    c.pos = i + 1;
                    proof {
                        lemma_skip_bounds(ev, (i + 1) as nat, 1);
                    }
                    match text::skip_extensions(c) {
                        Ok(()) => {},
                        Err(e) => return Err(e),
                    }
                },
                None => {
                    let name = n.clone();
                    c.pos = i + 1;
                    return Err(ParseError::InvalidChildElement(name, ElementKind::Track));
                },
            },
            Event::EndElement(_) => {
                c.pos = i + 1;
                return Ok(track);
            },
            Event::Failure(m) => {
                let msg = m.clone();
                c.pos = i + 1;
                return Err(ParseError::TokenizationFailure(msg));
            },
            _ => {
                c.pos = i + 1;
            },
        }
    }
    Err(ParseError::UnterminatedElement(ElementKind::Track))
}

} // verus!
