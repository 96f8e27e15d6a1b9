//! Parser and in-memory model for Low-Latency HLS media playlists: a
//! line-oriented text format describing a media stream as a sequence of
//! segments, partial segments and live-streaming control metadata.

pub mod attrs;
pub mod chars;
pub mod num;

pub mod entities;
pub mod laws;
pub mod outside;
pub mod playlist;
pub mod segment;

pub use attrs::read_attributes;
pub use entities::PartInf;
pub use entities::PartInfAttribute;
pub use entities::PartInfBuilder;
pub use entities::PreloadHint;
pub use entities::PreloadHintAttribute;
pub use entities::PreloadHintBuilder;
pub use entities::PreloadHintType;
pub use entities::RenditionReport;
pub use entities::RenditionReportAttribute;
pub use entities::RenditionReportBuilder;
pub use entities::ServerControl;
pub use entities::ServerControlAttribute;
pub use entities::ServerControlBuilder;
pub use entities::Skip;
pub use entities::SkipAttribute;
pub use entities::SkipBuilder;
pub use num::parse_u32;
pub use num::Decimal;
pub use playlist::parse_playlist;
pub use playlist::MediaPlaylist;
pub use playlist::MediaPlaylistBuilder;
pub use playlist::MediaPlaylistTag;
pub use segment::Inf;
pub use segment::InfAttribute;
pub use segment::InfBuilder;
pub use segment::MediaSegment;
pub use segment::MediaSegmentAttribute;
pub use segment::MediaSegmentBuilder;
pub use segment::MediaSegmentTag;
pub use segment::PartialSegment;
pub use segment::PartialSegmentAttribute;
pub use segment::PartialSegmentBuilder;

use vstd::prelude::*;

verus! {

/// A tag line whose structure or whose attribute list is malformed.
#[derive(Debug, PartialEq, Eq)]
pub struct ParseTagError;

/// An attribute value that does not match its expected primitive type.
#[derive(Debug, PartialEq, Eq)]
pub struct ParseAttributeError;

/// The classification of a failed document parse: not this format at all,
/// malformed content, or an underlying input failure.
#[derive(Debug)]
#[allow(non_camel_case_types)]
pub enum ParsePlaylistError {
    EXT3U_TAG_MISSING,
    BUILDER_ERROR,
    IO_ERROR,
    UNRECOGNIZED_TAG { tag: String },
}

} // verus!
