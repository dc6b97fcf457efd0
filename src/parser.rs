//! One consumer per element kind.
pub mod copyright;
pub mod gpx;
pub mod link;
pub mod metadata;
pub mod person;
pub mod route;
pub mod text;
pub mod track;
pub mod tracksegment;
pub mod waypoint;
