//! Facts about the consumers, stated over their spec functions.
use crate::error::{ElementKind, ParseError};
use crate::event::{attribute_value, xml_events, Event};
use crate::parser::gpx::{gpx_child, gpx_from, GpxChild, GpxModel};
use crate::parser::metadata::{metadata_child, metadata_from, MetadataChild, MetadataModel};
use crate::parser::route::{route_child, route_from, RouteChild, RouteModel};
use crate::parser::copyright::{copyright_child, copyright_from, CopyrightModel};
use crate::parser::link::{link_child, link_from, LinkModel};
use crate::parser::person::{person_child, person_from, PersonChild, PersonModel};
use crate::parser::text::{empty_from, skip_from, text_from};
use crate::parser::track::{track_child, track_from, TrackChild, TrackModel};
use crate::parser::tracksegment::{segment_child, segment_from, SegmentChild, TrackSegmentModel};
use crate::parser::waypoint::{point_child, waypoint_from, PointChild, WaypointModel};
use vstd::prelude::*;

verus! {

/// How much an event changes the nesting depth.
pub open spec fn depth_change(e: Event) -> int {
    match e {
        Event::StartElement(_, _) => 1,
        Event::EndElement(_) => -1,
        _ => 0,
    }
}

/// Start-tags minus end-tags among events `a` to `b` (not included).
pub open spec fn nesting(ev: Seq<Event>, a: nat, b: nat) -> int
    decreases b - a,
{
    if b <= a {
        0
    } else {
        nesting(ev, a, (b - 1) as nat) + depth_change(ev[b - 1])
    }
}

/// Events `a` to `b` (not included) are a run of complete elements and text:
/// no prefix closes more than it opened, all that opens closes, and the
/// tokenizer reported no failure among them.
pub open spec fn well_nested(ev: Seq<Event>, a: nat, b: nat) -> bool {
    &&& a <= b <= ev.len()
    &&& nesting(ev, a, b) == 0
    &&& forall|k: nat| a <= k <= b ==> nesting(ev, a, k) >= 0
    &&& forall|k: int| a <= k < b ==> !(#[trigger] ev[k] is Failure)
}

/// No end-tag from event `i` on.
pub open spec fn no_end_from(ev: Seq<Event>, i: nat) -> bool {
    forall|k: int| i <= k < ev.len() ==> !(#[trigger] ev[k] is EndElement)
}

/// From event `i` on there is only text, ignorable events and start-tags
/// named `tag`.
pub open spec fn only_text_or_tag_from(ev: Seq<Event>, i: nat, tag: Seq<char>) -> bool {
    forall|k: int|
        i <= k < ev.len() ==> (#[trigger] ev[k] is Characters || ev[k] is Ignorable || (
        ev[k] is StartElement && ev[k]->StartElement_0@ == tag))
}

/// The extension skipper, started one level deep just past an `extensions`
/// start-tag, consumes any well-nested content however deep it goes, and
/// stops just past the end-tag that closes `extensions`.
pub proof fn skip_consumes_nested_content(ev: Seq<Event>, a: nat, b: nat)
    requires
        well_nested(ev, a, b),
        b < ev.len(),
        ev[b as int] is EndElement,
    ensures
        skip_from(ev, a, 1) == (Ok::<(), ParseError>(()), b + 1),
{
    skip_from_inside(ev, a, b, a);
}

proof fn skip_from_inside(ev: Seq<Event>, a: nat, b: nat, k: nat)
    requires
        well_nested(ev, a, b),
        b < ev.len(),
        ev[b as int] is EndElement,
        a <= k <= b,
    ensures
        skip_from(ev, k, (1 + nesting(ev, a, k)) as nat) == (Ok::<(), ParseError>(()), b + 1),
    decreases b - k,
{
    if k < b {
        assert(nesting(ev, a, k + 1) == nesting(ev, a, k) + depth_change(ev[k as int]));
        assert(nesting(ev, a, k + 1) >= 0);
        assert(!(ev[k as int] is Failure));
        skip_from_inside(ev, a, b, k + 1);
    }
}

/// Inside a track, an `extensions` child with well-nested content is passed
/// over whole: the track reads on from just past `</extensions>`.
pub proof fn track_resumes_after_extensions(ev: Seq<Event>, i: nat, b: nat, acc: TrackModel)
    requires
        i < ev.len(),
        ev[i as int] is StartElement,
        ev[i as int]->StartElement_0@ == "extensions"@,
        well_nested(ev, i + 1, b),
        b < ev.len(),
        ev[b as int] is EndElement,
    ensures
        track_from(ev, i, acc) == track_from(ev, b + 1, acc),
{
    reveal_strlit("extensions");
    reveal_strlit("trk");
    reveal_strlit("name");
    reveal_strlit("cmt");
    reveal_strlit("desc");
    reveal_strlit("src");
    reveal_strlit("type");
    reveal_strlit("trkseg");
    assert("extensions"@.len() == 10);
    assert("trk"@.len() == 3 && "cmt"@.len() == 3 && "src"@.len() == 3);
    assert("name"@.len() == 4 && "desc"@.len() == 4 && "type"@.len() == 4);
    assert("trkseg"@.len() == 6);
    assert(track_child("extensions"@) == Some(TrackChild::Extensions));
    skip_consumes_nested_content(ev, i + 1, b);
}

/// At the root, an `extensions` child with well-nested content is passed
/// over whole: the root reads on from just past `</extensions>`.
pub proof fn gpx_resumes_after_extensions(ev: Seq<Event>, i: nat, b: nat, acc: GpxModel)
    requires
        i < ev.len(),
        ev[i as int] is StartElement,
        ev[i as int]->StartElement_0@ == "extensions"@,
        well_nested(ev, i + 1, b),
        b < ev.len(),
        ev[b as int] is EndElement,
    ensures
        gpx_from(ev, i, acc) == gpx_from(ev, b + 1, acc),
{
    reveal_strlit("extensions");
    reveal_strlit("gpx");
    reveal_strlit("metadata");
    reveal_strlit("wpt");
    reveal_strlit("trk");
    assert("extensions"@.len() == 10);
    reveal_strlit("rte");
    assert("gpx"@.len() == 3 && "wpt"@.len() == 3 && "trk"@.len() == 3 && "rte"@.len() == 3);
    assert("metadata"@.len() == 8);
    assert(gpx_child("extensions"@) == Some(GpxChild::Extensions));
    skip_consumes_nested_content(ev, i + 1, b);
}

/// Inside a track segment, an `extensions` child with well-nested content is passed
/// over whole: reading goes on from just past `</extensions>`.
pub proof fn segment_resumes_after_extensions(ev: Seq<Event>, i: nat, b: nat, acc: TrackSegmentModel)
    requires
        i < ev.len(),
        ev[i as int] is StartElement,
        ev[i as int]->StartElement_0@ == "extensions"@,
        well_nested(ev, i + 1, b),
        b < ev.len(),
        ev[b as int] is EndElement,
    ensures
        segment_from(ev, i, acc) == segment_from(ev, b + 1, acc),
{
    reveal_strlit("extensions");
    reveal_strlit("trkpt");
    assert("extensions"@.len() == 10);
    assert("trkpt"@.len() == 5);
    assert(segment_child("extensions"@) == Some(SegmentChild::Extensions));
    skip_consumes_nested_content(ev, i + 1, b);
}

/// Inside a point, an `extensions` child with well-nested content is passed
/// over whole: reading goes on from just past `</extensions>`.
pub proof fn waypoint_resumes_after_extensions(ev: Seq<Event>, i: nat, b: nat, acc: WaypointModel)
    requires
        i < ev.len(),
        ev[i as int] is StartElement,
        ev[i as int]->StartElement_0@ == "extensions"@,
        well_nested(ev, i + 1, b),
        b < ev.len(),
        ev[b as int] is EndElement,
    ensures
        waypoint_from(ev, i, acc) == waypoint_from(ev, b + 1, acc),
{
    reveal_strlit("extensions");
    reveal_strlit("ele");
    reveal_strlit("time");
    reveal_strlit("name");
    reveal_strlit("cmt");
    reveal_strlit("desc");
    reveal_strlit("src");
    reveal_strlit("sym");
    reveal_strlit("type");
    assert("extensions"@.len() == 10);
    assert("ele"@.len() == 3 && "time"@.len() == 4 && "name"@.len() == 4 && "cmt"@.len() == 3 && "desc"@.len() == 4 && "src"@.len() == 3 && "sym"@.len() == 3 && "type"@.len() == 4);
    assert(point_child("extensions"@) == Some(PointChild::Extensions));
    skip_consumes_nested_content(ev, i + 1, b);
}

/// Inside a route, an `extensions` child with well-nested content is passed
/// over whole: reading goes on from just past `</extensions>`.
pub proof fn route_resumes_after_extensions(ev: Seq<Event>, i: nat, b: nat, acc: RouteModel)
    requires
        i < ev.len(),
        ev[i as int] is StartElement,
        ev[i as int]->StartElement_0@ == "extensions"@,
        well_nested(ev, i + 1, b),
        b < ev.len(),
        ev[b as int] is EndElement,
    ensures
        route_from(ev, i, acc) == route_from(ev, b + 1, acc),
{
    reveal_strlit("extensions");
    reveal_strlit("name");
    reveal_strlit("cmt");
    reveal_strlit("desc");
    reveal_strlit("src");
    reveal_strlit("type");
    reveal_strlit("rtept");
    assert("extensions"@.len() == 10);
    assert("name"@.len() == 4 && "cmt"@.len() == 3 && "desc"@.len() == 4 && "src"@.len() == 3 && "type"@.len() == 4 && "rtept"@.len() == 5);
    assert(route_child("extensions"@) == Some(RouteChild::Extensions));
    skip_consumes_nested_content(ev, i + 1, b);
}

/// Inside a metadata element, an `extensions` child with well-nested content is passed
/// over whole: reading goes on from just past `</extensions>`.
pub proof fn metadata_resumes_after_extensions(ev: Seq<Event>, i: nat, b: nat, acc: MetadataModel)
    requires
        i < ev.len(),
        ev[i as int] is StartElement,
        ev[i as int]->StartElement_0@ == "extensions"@,
        well_nested(ev, i + 1, b),
        b < ev.len(),
        ev[b as int] is EndElement,
    ensures
        metadata_from(ev, i, acc) == metadata_from(ev, b + 1, acc),
{
    reveal_strlit("extensions");
    reveal_strlit("name");
    reveal_strlit("desc");
    reveal_strlit("time");
    reveal_strlit("keywords");
    reveal_strlit("author");
    reveal_strlit("copyright");
    reveal_strlit("link");
    reveal_strlit("bounds");
    assert("extensions"@.len() == 10);
    assert("name"@.len() == 4 && "desc"@.len() == 4 && "time"@.len() == 4 && "keywords"@.len() == 8 && "author"@.len() == 6 && "copyright"@.len() == 9 && "link"@.len() == 4 && "bounds"@.len() == 6);
    assert(metadata_child("extensions"@) == Some(MetadataChild::Extensions));
    skip_consumes_nested_content(ev, i + 1, b);
}

proof fn gpx_passes_ignorable(ev: Seq<Event>, k: nat, i: nat, acc: GpxModel)
    requires
        k <= i <= ev.len(),
        forall|m: int| k <= m < i ==> #[trigger] ev[m] is Ignorable,
    ensures
        gpx_from(ev, k, acc) == gpx_from(ev, i, acc),
    decreases i - k,
{
    if k < i {
        gpx_passes_ignorable(ev, k + 1, i, acc);
    }
}

/// A document whose root start-tag is directly followed by an end-tag parses
/// into a document with no metadata, no waypoint and no track, whose version
/// and creator are the root's attributes.
pub proof fn empty_root_parses(ev: Seq<Event>, i: nat)
    requires
        i + 1 < ev.len(),
        forall|m: int| 0 <= m < i ==> #[trigger] ev[m] is Ignorable,
        ev[i as int] is StartElement,
        ev[i as int]->StartElement_0@ == "gpx"@,
        ev[(i + 1) as int] is EndElement,
    ensures
        gpx_from(ev, 0, GpxModel::empty()).0 == Ok::<GpxModel, ParseError>(
            GpxModel {
                version: attribute_value(ev[i as int]->StartElement_1@, "version"@),
                creator: attribute_value(ev[i as int]->StartElement_1@, "creator"@),
                metadata: None,
                waypoints: Seq::empty(),
                routes: Seq::empty(),
                tracks: Seq::empty(),
            },
        ),
{
    gpx_passes_ignorable(ev, 0, i, GpxModel::empty());
    let attrs = ev[i as int]->StartElement_1;
    let root = GpxModel {
        version: attribute_value(attrs@, "version"@),
        creator: attribute_value(attrs@, "creator"@),
        ..GpxModel::empty()
    };
    assert(gpx_from(ev, i + 1, root) == (Ok::<GpxModel, ParseError>(root), i + 2));
}

/// A start-tag that a track does not allow fails the track with
/// `InvalidChildElement`.
pub proof fn track_rejects_unknown_child(ev: Seq<Event>, i: nat, acc: TrackModel)
    requires
        i < ev.len(),
        ev[i as int] is StartElement,
        track_child(ev[i as int]->StartElement_0@) is None,
    ensures
        track_from(ev, i, acc) == (
        Err::<TrackModel, ParseError>(
            ParseError::InvalidChildElement(ev[i as int]->StartElement_0, ElementKind::Track),
        ),
        i + 1),
{
}

/// A start-tag that a track segment does not allow fails the segment with
/// `InvalidChildElement`.
pub proof fn segment_rejects_unknown_child(ev: Seq<Event>, i: nat, acc: TrackSegmentModel)
    requires
        i < ev.len(),
        ev[i as int] is StartElement,
        segment_child(ev[i as int]->StartElement_0@) is None,
    ensures
        segment_from(ev, i, acc) == (
        Err::<TrackSegmentModel, ParseError>(
            ParseError::InvalidChildElement(ev[i as int]->StartElement_0, ElementKind::TrackSegment),
        ),
        i + 1),
{
}

/// A start-tag that a point does not allow fails the point with
/// `InvalidChildElement`.
pub proof fn waypoint_rejects_unknown_child(ev: Seq<Event>, i: nat, acc: WaypointModel)
    requires
        i < ev.len(),
        ev[i as int] is StartElement,
        point_child(ev[i as int]->StartElement_0@) is None,
    ensures
        waypoint_from(ev, i, acc) == (
        Err::<WaypointModel, ParseError>(
            ParseError::InvalidChildElement(ev[i as int]->StartElement_0, ElementKind::Waypoint),
        ),
        i + 1),
{
}

/// A start-tag that a metadata element does not allow fails it with
/// `InvalidChildElement`.
pub proof fn metadata_rejects_unknown_child(ev: Seq<Event>, i: nat, acc: MetadataModel)
    requires
        i < ev.len(),
        ev[i as int] is StartElement,
        metadata_child(ev[i as int]->StartElement_0@) is None,
    ensures
        metadata_from(ev, i, acc) == (
        Err::<MetadataModel, ParseError>(
            ParseError::InvalidChildElement(ev[i as int]->StartElement_0, ElementKind::Metadata),
        ),
        i + 1),
{
}

/// A start-tag that the root does not allow fails the document with
/// `InvalidChildElement`.
pub proof fn gpx_rejects_unknown_child(ev: Seq<Event>, i: nat, acc: GpxModel)
    requires
        i < ev.len(),
        ev[i as int] is StartElement,
        gpx_child(ev[i as int]->StartElement_0@) is None,
    ensures
        gpx_from(ev, i, acc) == (
        Err::<GpxModel, ParseError>(
            ParseError::InvalidChildElement(ev[i as int]->StartElement_0, ElementKind::Gpx),
        ),
        i + 1),
{
}

/// A track whose events run out before any end-tag, holding only text and
/// its own start-tag, fails with `UnterminatedElement`.
pub proof fn track_unterminated(ev: Seq<Event>, i: nat, acc: TrackModel)
    requires
        i <= ev.len(),
        only_text_or_tag_from(ev, i, "trk"@),
    ensures
        track_from(ev, i, acc) == (
        Err::<TrackModel, ParseError>(ParseError::UnterminatedElement(ElementKind::Track)),
        ev.len()),
    decreases ev.len() - i,
{
    reveal_strlit("trk");
    if i < ev.len() {
        track_unterminated(ev, i + 1, acc);
    }
}

/// A document whose events run out before any end-tag, holding only text and
/// its root start-tag, fails with `UnterminatedElement`.
pub proof fn gpx_unterminated(ev: Seq<Event>, i: nat, acc: GpxModel)
    requires
        i <= ev.len(),
        only_text_or_tag_from(ev, i, "gpx"@),
    ensures
        gpx_from(ev, i, acc).0 == Err::<GpxModel, ParseError>(
            ParseError::UnterminatedElement(ElementKind::Gpx),
        ),
    decreases ev.len() - i,
{
    reveal_strlit("gpx");
    if i < ev.len() {
        match ev[i as int] {
            Event::StartElement(_, attrs) => gpx_unterminated(
                ev,
                i + 1,
                GpxModel {
                    version: attribute_value(attrs@, "version"@),
                    creator: attribute_value(attrs@, "creator"@),
                    ..acc
                },
            ),
            _ => gpx_unterminated(ev, i + 1, acc),
        }
    }
}

/// Without an end-tag from event `i` on, a text leaf is never read.
pub proof fn text_needs_end(ev: Seq<Event>, i: nat, acc: Seq<char>)
    requires
        no_end_from(ev, i),
    ensures
        text_from(ev, i, acc).0 is Err,
    decreases ev.len() - i,
{
    if i < ev.len() {
        match ev[i as int] {
            Event::Characters(t) => text_needs_end(ev, i + 1, acc + t@),
            Event::Ignorable => text_needs_end(ev, i + 1, acc),
            _ => {},
        }
    }
}

/// Without an end-tag from event `i` on, an `extensions` subtree is never
/// skipped.
pub proof fn skip_needs_end(ev: Seq<Event>, i: nat, depth: nat)
    requires
        no_end_from(ev, i),
    ensures
        skip_from(ev, i, depth).0 is Err,
    decreases ev.len() - i,
{
    if i < ev.len() {
        match ev[i as int] {
            Event::StartElement(_, _) => skip_needs_end(ev, i + 1, depth + 1),
            Event::Failure(_) => {},
            _ => skip_needs_end(ev, i + 1, depth),
        }
    }
}

/// Without an end-tag from event `i` on, a point is never read.
pub proof fn waypoint_needs_end(ev: Seq<Event>, i: nat, acc: WaypointModel)
    requires
        no_end_from(ev, i),
    ensures
        waypoint_from(ev, i, acc).0 is Err,
    decreases ev.len() - i,
{
    if i < ev.len() {
        match ev[i as int] {
            Event::StartElement(n, _) => match point_child(n@) {
                Some(PointChild::Leaf(_)) => text_needs_end(ev, i + 1, Seq::empty()),
                Some(PointChild::Extensions) => skip_needs_end(ev, i + 1, 1),
                None => {},
            },
            Event::Failure(_) => {},
            _ => waypoint_needs_end(ev, i + 1, acc),
        }
    }
}

/// Without an end-tag from event `i` on, a track segment is never read.
pub proof fn segment_needs_end(ev: Seq<Event>, i: nat, acc: TrackSegmentModel)
    requires
        no_end_from(ev, i),
    ensures
        segment_from(ev, i, acc).0 is Err,
    decreases ev.len() - i,
{
    if i < ev.len() {
        match ev[i as int] {
            Event::StartElement(n, attrs) => match segment_child(n@) {
                Some(SegmentChild::Point) => waypoint_needs_end(
                    ev,
                    i + 1,
                    WaypointModel::located(attrs@),
                ),
                Some(SegmentChild::Extensions) => skip_needs_end(ev, i + 1, 1),
                None => {},
            },
            Event::Failure(_) => {},
            _ => segment_needs_end(ev, i + 1, acc),
        }
    }
}

/// A track whose events hold no end-tag from event `i` on never parses: the
/// result is an error, whatever else the events hold.
pub proof fn track_needs_end(ev: Seq<Event>, i: nat, acc: TrackModel)
    requires
        no_end_from(ev, i),
    ensures
        track_from(ev, i, acc).0 is Err,
    decreases ev.len() - i,
{
    if i < ev.len() {
        match ev[i as int] {
            Event::StartElement(n, _) => match track_child(n@) {
                Some(TrackChild::Own) => track_needs_end(ev, i + 1, acc),
                Some(TrackChild::Leaf(_)) => text_needs_end(ev, i + 1, Seq::empty()),
                Some(TrackChild::Segment) => segment_needs_end(ev, i + 1, TrackSegmentModel::empty()),
                Some(TrackChild::Extensions) => skip_needs_end(ev, i + 1, 1),
                None => {},
            },
            Event::Failure(_) => {},
            _ => track_needs_end(ev, i + 1, acc),
        }
    }
}

/// Without an end-tag from event `i` on, a route is never read.
pub proof fn route_needs_end(ev: Seq<Event>, i: nat, acc: RouteModel)
    requires
        no_end_from(ev, i),
    ensures
        route_from(ev, i, acc).0 is Err,
    decreases ev.len() - i,
{
    if i < ev.len() {
        match ev[i as int] {
            Event::StartElement(n, attrs) => match route_child(n@) {
                Some(RouteChild::Leaf(_)) => text_needs_end(ev, i + 1, Seq::empty()),
                Some(RouteChild::Point) => waypoint_needs_end(ev, i + 1, WaypointModel::located(attrs@)),
                Some(RouteChild::Extensions) => skip_needs_end(ev, i + 1, 1),
                None => {},
            },
            Event::Failure(_) => {},
            _ => route_needs_end(ev, i + 1, acc),
        }
    }
}

/// A start-tag that a route does not allow fails the route with
/// `InvalidChildElement`.
pub proof fn route_rejects_unknown_child(ev: Seq<Event>, i: nat, acc: RouteModel)
    requires
        i < ev.len(),
        ev[i as int] is StartElement,
        route_child(ev[i as int]->StartElement_0@) is None,
    ensures
        route_from(ev, i, acc) == (
        Err::<RouteModel, ParseError>(
            ParseError::InvalidChildElement(ev[i as int]->StartElement_0, ElementKind::Route),
        ),
        i + 1),
{
}

/// Without an end-tag from event `i` on, an element without children is
/// never read.
pub proof fn empty_needs_end(ev: Seq<Event>, i: nat, kind: ElementKind)
    requires
        no_end_from(ev, i),
    ensures
        empty_from(ev, i, kind).0 is Err,
    decreases ev.len() - i,
{
    if i < ev.len() {
        match ev[i as int] {
            Event::StartElement(_, _) => {},
            Event::Failure(_) => {},
            _ => empty_needs_end(ev, i + 1, kind),
        }
    }
}

/// Without an end-tag from event `i` on, a link is never read.
pub proof fn link_needs_end(ev: Seq<Event>, i: nat, acc: LinkModel)
    requires
        no_end_from(ev, i),
    ensures
        link_from(ev, i, acc).0 is Err,
    decreases ev.len() - i,
{
    if i < ev.len() {
        match ev[i as int] {
            Event::StartElement(n, _) => match link_child(n@) {
                Some(_) => text_needs_end(ev, i + 1, Seq::empty()),
                None => {},
            },
            Event::Failure(_) => {},
            _ => link_needs_end(ev, i + 1, acc),
        }
    }
}

/// Without an end-tag from event `i` on, a copyright notice is never read.
pub proof fn copyright_needs_end(ev: Seq<Event>, i: nat, acc: CopyrightModel)
    requires
        no_end_from(ev, i),
    ensures
        copyright_from(ev, i, acc).0 is Err,
    decreases ev.len() - i,
{
    if i < ev.len() {
        match ev[i as int] {
            Event::StartElement(n, _) => match copyright_child(n@) {
                Some(_) => text_needs_end(ev, i + 1, Seq::empty()),
                None => {},
            },
            Event::Failure(_) => {},
            _ => copyright_needs_end(ev, i + 1, acc),
        }
    }
}

/// Without an end-tag from event `i` on, a person is never read.
pub proof fn person_needs_end(ev: Seq<Event>, i: nat, acc: PersonModel)
    requires
        no_end_from(ev, i),
    ensures
        person_from(ev, i, acc).0 is Err,
    decreases ev.len() - i,
{
    if i < ev.len() {
        match ev[i as int] {
            Event::StartElement(n, attrs) => match person_child(n@) {
                Some(PersonChild::Name) => text_needs_end(ev, i + 1, Seq::empty()),
                Some(PersonChild::Email) => empty_needs_end(ev, i + 1, ElementKind::Email),
                Some(PersonChild::Link) => link_needs_end(ev, i + 1, LinkModel::located(attrs@)),
                None => {},
            },
            Event::Failure(_) => {},
            _ => person_needs_end(ev, i + 1, acc),
        }
    }
}

/// Without an end-tag from event `i` on, a metadata element is never read.
pub proof fn metadata_needs_end(ev: Seq<Event>, i: nat, acc: MetadataModel)
    requires
        no_end_from(ev, i),
    ensures
        metadata_from(ev, i, acc).0 is Err,
    decreases ev.len() - i,
{
    if i < ev.len() {
        match ev[i as int] {
            Event::StartElement(n, attrs) => match metadata_child(n@) {
                Some(MetadataChild::Leaf(_)) => text_needs_end(ev, i + 1, Seq::empty()),
                Some(MetadataChild::Author) => person_needs_end(ev, i + 1, PersonModel::empty()),
                Some(MetadataChild::Copyright) => copyright_needs_end(
                    ev,
                    i + 1,
                    CopyrightModel::located(attrs@),
                ),
                Some(MetadataChild::Link) => link_needs_end(ev, i + 1, LinkModel::located(attrs@)),
                Some(MetadataChild::Bounds) => empty_needs_end(ev, i + 1, ElementKind::Bounds),
                Some(MetadataChild::Extensions) => skip_needs_end(ev, i + 1, 1),
                None => {},
            },
            Event::Failure(_) => {},
            _ => metadata_needs_end(ev, i + 1, acc),
        }
    }
}

/// A document whose events hold no end-tag from event `i` on never parses:
/// the result is an error, whatever else the events hold.
pub proof fn gpx_needs_end(ev: Seq<Event>, i: nat, acc: GpxModel)
    requires
        no_end_from(ev, i),
    ensures
        gpx_from(ev, i, acc).0 is Err,
    decreases ev.len() - i,
{
    if i < ev.len() {
        match ev[i as int] {
            Event::StartElement(n, attrs) => match gpx_child(n@) {
                Some(GpxChild::Own) => gpx_needs_end(
                    ev,
                    i + 1,
                    GpxModel {
                        version: attribute_value(attrs@, "version"@),
                        creator: attribute_value(attrs@, "creator"@),
                        ..acc
                    },
                ),
                Some(GpxChild::Metadata) => metadata_needs_end(ev, i + 1, MetadataModel::empty()),
                Some(GpxChild::Waypoint) => waypoint_needs_end(
                    ev,
                    i + 1,
                    WaypointModel::located(attrs@),
                ),
                Some(GpxChild::Route) => route_needs_end(ev, i + 1, RouteModel::empty()),
                Some(GpxChild::Track) => track_needs_end(ev, i + 1, TrackModel::empty()),
                Some(GpxChild::Extensions) => skip_needs_end(ev, i + 1, 1),
                None => {},
            },
            Event::Failure(_) => {},
            _ => gpx_needs_end(ev, i + 1, acc),
        }
    }
}

/// Parsing the same text twice gives the same document, or the same error.
pub proof fn parse_is_deterministic(a: Seq<char>, b: Seq<char>)
    requires
        a == b,
    ensures
        gpx_from(xml_events(a), 0, GpxModel::empty()) == gpx_from(xml_events(b), 0, GpxModel::empty()),
{
}

/// Reading the same track events from the same place twice gives the same
/// track, or the same error, and stops at the same place.
pub proof fn track_is_deterministic(a: Seq<Event>, b: Seq<Event>, i: nat)
    requires
        a == b,
    ensures
        track_from(a, i, TrackModel::empty()) == track_from(b, i, TrackModel::empty()),
{
}

} // verus!
