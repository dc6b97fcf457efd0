//! The single error taxonomy shared by all consumers.
use vstd::prelude::*;

verus! {

/// The element kinds that a consumer is written for.
#[derive(Clone, Copy, Debug, PartialEq, Eq, Structural)]
pub enum ElementKind {
    Gpx,
    Metadata,
    Waypoint,
    Track,
    TrackSegment,
    Route,
    Person,
    Email,
    Link,
    Copyright,
    Bounds,
    Text,
    Extensions,
}

/// Why a parse failed.
#[derive(Clone, Debug, PartialEq, Eq)]
pub enum ParseError {
    /// The tokenizer reported a lexical or well-formedness error (its message).
    TokenizationFailure(String),
    /// A start-tag (its local name) stood where its parent does not allow it.
    InvalidChildElement(String, ElementKind),
    /// The stream ended while an element of this kind was still open.
    UnterminatedElement(ElementKind),
}

} // verus!
