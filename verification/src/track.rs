//! The canonical in-memory representation of a track, shared by both catalogs.

use vstd::prelude::*;

verus! {

/// Which catalog a track record came from.  Identity across catalogs is never
/// decided by comparing identifiers; it is established only by the match
/// scorer, so every record carries its origin.
#[derive(Debug, Clone, Copy, PartialEq, Eq, Structural)]
pub enum TrackSource {
    Subsonic,
    Spotify,
}

/// One track, regardless of origin catalog.  Records are immutable after
/// construction: scoring and reconciliation only select or copy them.
#[derive(Debug, PartialEq, Eq)]
pub struct Track {
    pub title: String,
    pub artist: String,
    pub album: String,
    /// Duration in whole seconds; constructors reject records without a
    /// non-negative duration so the duration-tolerance check never compares
    /// against a defaulted zero.
    pub duration: i32,
    /// 1-based track number, possibly reset per disc by the origin service.
    pub track_number: u32,
    /// 1-based disc number.
    pub disc_number: u32,
    /// Release year, 0 if unknown.
    pub year: i32,
    /// Identifier, meaningful only within the origin catalog.
    pub id: String,
    /// International Standard Recording Code, when the service supplies one.
    pub isrc: Option<String>,
    /// Carried through for callers; never used by matching.
    pub musicbrainz_id: Option<String>,
    pub track_source: TrackSource,
}

impl Clone for Track {
    fn clone(&self) -> (res: Self)
        ensures
            res == *self,
    {
        Track {
            title: self.title.clone(),
            artist: self.artist.clone(),
            album: self.album.clone(),
            duration: self.duration,
            track_number: self.track_number,
            disc_number: self.disc_number,
            year: self.year,
            id: self.id.clone(),
            isrc: clone_opt_string(&self.isrc),
            musicbrainz_id: clone_opt_string(&self.musicbrainz_id),
            track_source: self.track_source,
        }
    }
}

fn clone_opt_string(s: &Option<String>) -> (res: Option<String>)
    ensures
        res == *s,
{
    match s {
        Some(v) => Some(v.clone()),
        None => None,
    }
}

impl Default for TrackSource {
    fn default() -> (res: Self)
        ensures
            res == TrackSource::Spotify,
    {
        TrackSource::Spotify
    }
}

impl Default for Track {
    fn default() -> (res: Self)
        ensures
            res.title@ == Seq::<char>::empty(),
            res.artist@ == Seq::<char>::empty(),
            res.album@ == Seq::<char>::empty(),
            res.duration == 0,
            res.track_number == 0,
            res.disc_number == 0,
            res.year == 0,
            res.id@ == Seq::<char>::empty(),
            res.isrc is None,
            res.musicbrainz_id is None,
            res.track_source == TrackSource::Spotify,
    {
        Track {
            title: String::new(),
            artist: String::new(),
            album: String::new(),
            duration: 0,
            track_number: 0,
            disc_number: 0,
            year: 0,
            id: String::new(),
            isrc: None,
            musicbrainz_id: None,
            track_source: TrackSource::Spotify,
        }
    }
}

} // verus!
