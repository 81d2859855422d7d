//! Track metadata and its display fallbacks.

use vstd::prelude::*;

verus! {

/// One queued or playing piece of audio: immutable metadata plus the
/// identifier of the controllable stream owned by the audio collaborator.
/// The id is opaque here; the layer that opens streams keeps the map from
/// ids to live handles.
#[derive(Debug)]
pub struct Track {
    pub title: Option<String>,
    pub artist: Option<String>,
    pub source_url: Option<String>,
    pub thumbnail_url: Option<String>,
    /// Playing time in whole seconds; display floors to seconds anyway.
    pub duration_secs: Option<u64>,
    /// Opaque id of the underlying playback stream.
    pub handle_id: u64,
}

impl Clone for Track {
    fn clone(&self) -> (r: Self)
        ensures
            r == *self,
    {
        let r = Track {
            title: self.title.clone(),
            artist: self.artist.clone(),
            source_url: self.source_url.clone(),
            thumbnail_url: self.thumbnail_url.clone(),
            duration_secs: self.duration_secs,
            handle_id: self.handle_id,
        };
        proof {
            assert(r.title == self.title);
            assert(r.artist == self.artist);
            assert(r.source_url == self.source_url);
            assert(r.thumbnail_url == self.thumbnail_url);
        }
        r
    }
}

/// The title to display for a track.
pub open spec fn spec_title(t: Track) -> Seq<char> {
    match t.title {
        Some(s) => s@,
        None => "Unknown Title"@,
    }
}

/// The artist to display for a track.
pub open spec fn spec_artist(t: Track) -> Seq<char> {
    match t.artist {
        Some(s) => s@,
        None => "Unknown Artist"@,
    }
}

/// The seconds a track plays for, with a missing duration counting as zero.
pub open spec fn spec_duration_or_zero(t: Track) -> u64 {
    match t.duration_secs {
        Some(d) => d,
        None => 0,
    }
}

/// Title with the display fallback applied.
pub fn get_title(t: &Track) -> (r: &str)
    ensures
        r@ == spec_title(*t),
{
    match &t.title {
        Some(s) => s.as_str(),
        None => "Unknown Title",
    }
}

/// Artist with the display fallback applied.
pub fn get_artist(t: &Track) -> (r: &str)
    ensures
        r@ == spec_artist(*t),
{
    match &t.artist {
        Some(s) => s.as_str(),
        None => "Unknown Artist",
    }
}

/// Duration in whole seconds, defaulting to zero when unknown.
pub fn duration_or_zero(t: &Track) -> (r: u64)
    ensures
        r == spec_duration_or_zero(*t),
{
    match t.duration_secs {
        Some(d) => d,
        None => 0,
    }
}

/// A string, or the given fallback where it is empty.
pub fn string_or_default<'a>(s: &'a str, d: &'a str) -> (r: &'a str)
    ensures
        r@ == if s@.len() == 0 { d@ } else { s@ },
{
    if s.is_empty() {
        d
    } else {
        s
    }
}

/// Splits a duration in seconds into a (minutes, seconds) pair.
pub fn split_duration(secs: u64) -> (r: (u64, u64))
    ensures
        r.0 == secs / 60,
        r.1 == secs % 60,
        r.1 < 60,
{
    (secs / 60, secs % 60)
}

} // verus!
