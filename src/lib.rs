//! Builds a typed GPX document out of a stream of XML events.
//!
//! Each element kind has a consumer that takes the shared event cursor just
//! past the element's start-tag and advances it exactly past the element's
//! subtree. Every consumer is proved equal to a spec function over the event
//! sequence, so its result and the cursor position it leaves are pinned down.
pub mod error;
pub mod event;
pub mod parser;
pub mod theorems;

pub use error::{ElementKind, ParseError};
pub use event::{Attribute, Event, EventCursor};
pub use parser::gpx::{parse, Gpx};
pub use parser::metadata::Metadata;
pub use parser::route::Route;
pub use parser::track::Track;
pub use parser::tracksegment::TrackSegment;
pub use parser::waypoint::Waypoint;
