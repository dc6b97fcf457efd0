use gpx::parser::gpx::{consume as consume_document, parse};
use gpx::parser::text::skip_extensions;
use gpx::parser::track::consume as consume_track;
use gpx::{ElementKind, Event, EventCursor, ParseError};

fn start(name: &str) -> Event {
    Event::StartElement(name.to_string(), Vec::new())
}

fn end(name: &str) -> Event {
    Event::EndElement(name.to_string())
}

#[test]
fn consume_gpx() {
    let gpx = consume_document(&mut EventCursor::from_str("<gpx></gpx>"));

    assert!(gpx.is_ok());
}

#[test]
fn consume_gpx_full() {
    let gpx = consume_document(&mut EventCursor::from_str("<gpx><trk></trk></gpx>"));

    assert!(gpx.is_ok());
    let gpx = gpx.unwrap();

    assert_eq!(gpx.tracks.len(), 1);
}

#[test]
fn consume_full_track() {
    let track = consume_track(&mut EventCursor::from_str(
        "
        <trk xmlns=\"http://www.topografix.com/GPX/1/1\"
             xmlns:gpxx=\"http://www.garmin.com/xmlschemas/GpxExtensions/v3\"
             xmlns:gpxtrkx=\"http://www.garmin.com/xmlschemas/TrackStatsExtension/v1\">
            <name>track name</name>
            <cmt>track comment</cmt>
            <desc>track description</desc>
            <src>track source</src>
            <type>track type</type>
            <extensions>
              <gpxx:TrackExtension>
                <gpxx:DisplayColor>Blue</gpxx:DisplayColor>
              </gpxx:TrackExtension>
              <gpxtrkx:TrackStatsExtension>
                <gpxtrkx:Distance>60986</gpxtrkx:Distance>
                <gpxtrkx:TotalElapsedTime>88210</gpxtrkx:TotalElapsedTime>
                <gpxtrkx:MovingTime>14117</gpxtrkx:MovingTime>
                <gpxtrkx:StoppedTime>4865</gpxtrkx:StoppedTime>
              </gpxtrkx:TrackStatsExtension>
            </extensions>
        </trk>
        ",
    ));

    assert!(track.is_ok());

    let track = track.unwrap();

    assert_eq!(track.name.unwrap(), "track name");
    assert_eq!(track.comment.unwrap(), "track comment");
    assert_eq!(track.description.unwrap(), "track description");
    assert_eq!(track.source.unwrap(), "track source");
    assert_eq!(track._type.unwrap(), "track type");
}

#[test]
fn consume_empty() {
    let track = consume_track(&mut EventCursor::from_str("<trk></trk>"));

    assert!(track.is_ok());
}

#[test]
fn empty_root_has_nothing() {
    let gpx = parse("<gpx version=\"1.1\" creator=\"me\"></gpx>").unwrap();
    assert!(gpx.metadata.is_none());
    assert!(gpx.tracks.is_empty());
    assert!(gpx.waypoints.is_empty());
    assert_eq!(gpx.version.as_deref(), Some("1.1"));
    assert_eq!(gpx.creator.as_deref(), Some("me"));
}

#[test]
fn single_empty_track() {
    let gpx = parse("<gpx><trk></trk></gpx>").unwrap();
    assert_eq!(gpx.tracks.len(), 1);
    let t = &gpx.tracks[0];
    assert!(t.segments.is_empty());
    assert!(t.name.is_none());
    assert!(t.comment.is_none());
    assert!(t.description.is_none());
    assert!(t.source.is_none());
    assert!(t._type.is_none());
}

#[test]
fn track_fields_in_any_order() {
    let t = consume_track(&mut EventCursor::from_str(
        "<trk><type>y</type><src>s</src><desc>d</desc><cmt>c</cmt><name>n</name></trk>",
    ))
    .unwrap();
    assert_eq!(t.name.as_deref(), Some("n"));
    assert_eq!(t.comment.as_deref(), Some("c"));
    assert_eq!(t.description.as_deref(), Some("d"));
    assert_eq!(t.source.as_deref(), Some("s"));
    assert_eq!(t._type.as_deref(), Some("y"));
}

#[test]
fn leaf_text_is_trimmed_and_last_write_wins() {
    let t = consume_track(&mut EventCursor::from_str(
        "<trk><name>  first </name><name>\n second\t</name></trk>",
    ))
    .unwrap();
    assert_eq!(t.name.as_deref(), Some("second"));
}

#[test]
fn segments_and_points_keep_document_order() {
    let gpx = parse(
        "<gpx><trk><trkseg><trkpt lat=\"1\" lon=\"2\"><ele>3</ele></trkpt>\
         <trkpt lat=\"4\" lon=\"5\"><time>t</time></trkpt></trkseg><trkseg></trkseg></trk></gpx>",
    )
    .unwrap();
    let segs = &gpx.tracks[0].segments;
    assert_eq!(segs.len(), 2);
    assert_eq!(segs[0].points.len(), 2);
    assert!(segs[1].points.is_empty());
    assert_eq!(segs[0].points[0].latitude.as_deref(), Some("1"));
    assert_eq!(segs[0].points[0].longitude.as_deref(), Some("2"));
    assert_eq!(segs[0].points[0].elevation.as_deref(), Some("3"));
    assert_eq!(segs[0].points[1].latitude.as_deref(), Some("4"));
    assert_eq!(segs[0].points[1].time.as_deref(), Some("t"));
}

#[test]
fn waypoints_and_metadata_at_root() {
    let gpx = parse(
        "<gpx><metadata><name>m</name><keywords>k</keywords></metadata>\
         <wpt lat=\"10\" lon=\"20\"><sym>flag</sym></wpt></gpx>",
    )
    .unwrap();
    let m = gpx.metadata.unwrap();
    assert_eq!(m.name.as_deref(), Some("m"));
    assert_eq!(m.keywords.as_deref(), Some("k"));
    assert_eq!(gpx.waypoints.len(), 1);
    assert_eq!(gpx.waypoints[0].latitude.as_deref(), Some("10"));
    assert_eq!(gpx.waypoints[0].symbol.as_deref(), Some("flag"));
}

#[test]
fn deep_extensions_are_skipped_and_sibling_read() {
    let t = consume_track(&mut EventCursor::from_str(
        "<trk><extensions><a><b><c>x</c></b><d/></a></extensions><name>after</name></trk>",
    ))
    .unwrap();
    assert_eq!(t.name.as_deref(), Some("after"));
}

#[test]
fn skipper_stops_past_closing_tag() {
    let events = vec![
        start("extensions"),
        start("a"),
        start("b"),
        end("b"),
        end("a"),
        end("extensions"),
        start("name"),
    ];
    let mut c = EventCursor::new(events);
    c.pos = 1;
    assert_eq!(skip_extensions(&mut c), Ok(()));
    assert_eq!(c.pos, 6);
}

#[test]
fn unknown_child_is_rejected() {
    let r = consume_track(&mut EventCursor::from_str("<trk><bogus/></trk>"));
    assert_eq!(
        r.unwrap_err(),
        ParseError::InvalidChildElement("bogus".to_string(), ElementKind::Track)
    );
    let r = parse("<gpx><trk><trkseg><foo></foo></trkseg></trk></gpx>");
    assert_eq!(
        r.unwrap_err(),
        ParseError::InvalidChildElement("foo".to_string(), ElementKind::TrackSegment)
    );
    let r = parse("<gpx><route></route></gpx>");
    assert_eq!(r.unwrap_err(), ParseError::InvalidChildElement("route".to_string(), ElementKind::Gpx));
    let r = parse("<gpx><rte><trkpt/></rte></gpx>");
    assert_eq!(r.unwrap_err(), ParseError::InvalidChildElement("trkpt".to_string(), ElementKind::Route));
}

#[test]
fn child_inside_leaf_is_rejected() {
    let r = consume_track(&mut EventCursor::from_str("<trk><name><b/></name></trk>"));
    assert_eq!(r.unwrap_err(), ParseError::InvalidChildElement("b".to_string(), ElementKind::Text));
}

#[test]
fn early_end_is_unterminated() {
    let r = consume_track(&mut EventCursor::new(vec![Event::Ignorable, start("trk")]));
    assert_eq!(r.unwrap_err(), ParseError::UnterminatedElement(ElementKind::Track));
    let r = consume_document(&mut EventCursor::new(vec![start("gpx"), start("trk"), start("trkseg")]));
    assert_eq!(r.unwrap_err(), ParseError::UnterminatedElement(ElementKind::TrackSegment));
    let r = consume_document(&mut EventCursor::new(vec![start("gpx")]));
    assert_eq!(r.unwrap_err(), ParseError::UnterminatedElement(ElementKind::Gpx));
}

#[test]
fn tokenizer_failure_is_reported() {
    let r = parse("<gpx><trk></gpx>");
    assert!(matches!(r, Err(ParseError::TokenizationFailure(_))));
    let r = consume_track(&mut EventCursor::from_str("<trk>"));
    assert!(matches!(r, Err(ParseError::TokenizationFailure(_))));
}

#[test]
fn parsing_twice_gives_equal_results() {
    let text = "<gpx><trk><name>a</name><trkseg><trkpt lat=\"1\" lon=\"2\"/></trkseg></trk></gpx>";
    assert_eq!(parse(text), parse(text));
    assert_eq!(parse("<gpx><x/></gpx>"), parse("<gpx><x/></gpx>"));
}

#[test]
fn cursor_ends_past_the_subtree() {
    let mut c = EventCursor::new(vec![start("name"), end("name"), end("trk"), start("next")]);
    let t = consume_track(&mut c).unwrap();
    assert_eq!(t.name.as_deref(), Some(""));
    assert_eq!(c.pos, 3);
}

#[test]
fn routes_keep_their_points() {
    let gpx = parse(
        "<gpx><rte><name>r</name><rtept lat=\"1\" lon=\"2\"/><rtept lat=\"3\" lon=\"4\"/></rte><trk/></gpx>",
    )
    .unwrap();
    assert_eq!(gpx.routes.len(), 1);
    assert_eq!(gpx.tracks.len(), 1);
    let r = &gpx.routes[0];
    assert_eq!(r.name.as_deref(), Some("r"));
    assert_eq!(r.points.len(), 2);
    assert_eq!(r.points[1].latitude.as_deref(), Some("3"));
    assert_eq!(r.points[1].longitude.as_deref(), Some("4"));
}

#[test]
fn metadata_with_nested_parts() {
    let gpx = parse(
        "<gpx><metadata><name>n</name><desc>d</desc>\
         <author><name>Jane</name><email id=\"jane\" domain=\"example.com\"/>\
         <link href=\"http://a\"><text>home</text></link></author>\
         <copyright author=\"Jane\"><year>2017</year><license>CC</license></copyright>\
         <link href=\"http://b\"><type>text/html</type></link>\
         <time>2017-01-01T00:00:00Z</time>\
         <bounds minlat=\"1\" minlon=\"2\" maxlat=\"3\" maxlon=\"4\"/>\
         <extensions><x><y/></x></extensions></metadata></gpx>",
    )
    .unwrap();
    let m = gpx.metadata.unwrap();
    assert_eq!(m.description.as_deref(), Some("d"));
    assert_eq!(m.time.as_deref(), Some("2017-01-01T00:00:00Z"));
    let a = m.author.unwrap();
    assert_eq!(a.name.as_deref(), Some("Jane"));
    let e = a.email.unwrap();
    assert_eq!(e.id.as_deref(), Some("jane"));
    assert_eq!(e.domain.as_deref(), Some("example.com"));
    let al = a.link.unwrap();
    assert_eq!(al.href.as_deref(), Some("http://a"));
    assert_eq!(al.text.as_deref(), Some("home"));
    let c = m.copyright.unwrap();
    assert_eq!(c.author.as_deref(), Some("Jane"));
    assert_eq!(c.year.as_deref(), Some("2017"));
    assert_eq!(c.license.as_deref(), Some("CC"));
    let l = m.link.unwrap();
    assert_eq!(l.href.as_deref(), Some("http://b"));
    assert_eq!(l._type.as_deref(), Some("text/html"));
    let b = m.bounds.unwrap();
    assert_eq!(b.min_lat.as_deref(), Some("1"));
    assert_eq!(b.min_lon.as_deref(), Some("2"));
    assert_eq!(b.max_lat.as_deref(), Some("3"));
    assert_eq!(b.max_lon.as_deref(), Some("4"));
}

#[test]
fn element_without_children_rejects_one() {
    let r = parse("<gpx><metadata><bounds><x/></bounds></metadata></gpx>");
    assert_eq!(r.unwrap_err(), ParseError::InvalidChildElement("x".to_string(), ElementKind::Bounds));
    let r = parse("<gpx><metadata><author><phone/></author></metadata></gpx>");
    assert_eq!(r.unwrap_err(), ParseError::InvalidChildElement("phone".to_string(), ElementKind::Person));
}

#[test]
fn cdata_counts_as_text() {
    let t = consume_track(&mut EventCursor::from_str("<trk><name><![CDATA[a<b]]></name></trk>")).unwrap();
    assert_eq!(t.name.as_deref(), Some("a<b"));
}
