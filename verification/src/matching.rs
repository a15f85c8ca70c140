//! The fuzzy match scorer: decides whether two track records denote the same
//! song despite metadata inconsistencies between services.
//!
//! Points are accumulated per signal against a fixed acceptance threshold of
//! 70 out of 100; an exact ISRC agreement short-circuits the score whenever
//! the album names show at least some similarity.

use vstd::prelude::*;

use crate::text::{contains_sub, is_substring_of, lower_of, lowercase};
use crate::track::Track;

verus! {

/// Points a pair of strings earns: 20 when they agree after lowercasing,
/// 10 when one lowercased string contains the other (an edition suffix such
/// as "(Remaster)"), 0 otherwise.
pub open spec fn spec_string_score(a: Seq<char>, b: Seq<char>) -> int {
    let s = lower_of(a);
    let t = lower_of(b);
    if s == t {
        20
    } else if is_substring_of(t, s) || is_substring_of(s, t) {
        10
    } else {
        0
    }
}

/// Album-name signal.
pub open spec fn spec_album_points(source: Track, target: Track) -> int {
    spec_string_score(source.album@, target.album@)
}

/// Title signal.
pub open spec fn spec_title_points(source: Track, target: Track) -> int {
    spec_string_score(source.title@, target.title@)
}

/// Year signal: 10 points for equal release years.
pub open spec fn spec_year_points(source: Track, target: Track) -> int {
    if source.year == target.year {
        10
    } else {
        0
    }
}

/// Artist signal: 20 points for case-insensitive exact equality.
pub open spec fn spec_artist_points(source: Track, target: Track) -> int {
    if lower_of(source.artist@) == lower_of(target.artist@) {
        20
    } else {
        0
    }
}

/// Duration signal: 20 points for exact agreement, 10 within three seconds.
pub open spec fn spec_duration_points(source: Track, target: Track) -> int {
    if source.duration == target.duration {
        20
    } else if -3 <= source.duration - target.duration <= 3 {
        10
    } else {
        0
    }
}

/// Track-number signal: 20 points for equal track numbers, but only when the
/// source record's disc number is 1 — multi-disc releases renumber tracks per
/// disc on the source catalog, making the raw number unreliable otherwise.
pub open spec fn spec_track_number_points(source: Track, target: Track) -> int {
    if source.disc_number == 1 && source.track_number == target.track_number {
        20
    } else {
        0
    }
}

/// The weighted score of a pair of tracks.
pub open spec fn spec_match_score(source: Track, target: Track) -> int {
    spec_album_points(source, target) + spec_title_points(source, target) + spec_year_points(
        source,
        target,
    ) + spec_artist_points(source, target) + spec_duration_points(source, target)
        + spec_track_number_points(source, target)
}

/// The ISRC short-circuit: both records carry the same ISRC and the album
/// names show at least some similarity.  Compilation re-releases may reuse an
/// ISRC, so the album check guards against those false positives.
pub open spec fn spec_isrc_accept(source: Track, target: Track) -> bool {
    &&& source.isrc is Some
    &&& target.isrc is Some
    &&& source.isrc->0@ == target.isrc->0@
    &&& spec_album_points(source, target) > 0
}

/// A pair of tracks is a match when the ISRC short-circuit fires or the
/// weighted score reaches the acceptance threshold of 70.
pub open spec fn spec_matches(source: Track, target: Track) -> bool {
    spec_isrc_accept(source, target) || spec_match_score(source, target) >= 70
}

impl Track {
    /// Compare two strings and return a rating of how similar they are.
    pub fn string_comparisons(string1: &str, string2: &str) -> (score: i32)
        ensures
            score as int == spec_string_score(string1@, string2@),
            score == 20 || score == 10 || score == 0,
    {
        let source = lowercase(string1);
        let target = lowercase(string2);

        // An exact match is rated highest
        if source == target {
            return 20;
        }
        // Either string may carry a prefix/suffix decoration (eg. (Remaster))
        if contains_sub(source.as_str(), target.as_str()) || contains_sub(
            target.as_str(),
            source.as_str(),
        ) {
            return 10;
        }
        0
    }

    /// Compares different aspects of two songs and gives a rating based on
    /// how well they match; a pair is a match when the rating is 70 or
    /// higher, or when the ISRC short-circuit fires.
    pub fn match_tracks(source: &Self, target: &Self) -> (is_match: bool)
        ensures
            is_match == spec_matches(*source, *target),
    {
        let mut score: i32 = 0;

        // 1. Album name matching
        let album_name_match = Self::string_comparisons(source.album.as_str(), target.album.as_str());
        score += album_name_match;

        // 2. International Standard Recording Code matching
        if let (Some(source_isrc), Some(target_isrc)) = (&source.isrc, &target.isrc) {
            if *source_isrc == *target_isrc {
                // Compilation (Greatest Hits, etc) albums may share the same
                // ISRC for certain tracks; requiring the album names to be at
                // least slightly similar eliminates most false positives
                if album_name_match > 0 {
                    return true;
                }
            }
        }

        // 3. Song name matching
        score += Self::string_comparisons(source.title.as_str(), target.title.as_str());

        // 4. Year matching
        if source.year == target.year {
            score += 10;
        }

        // 5. Artist name matching
        let source_artist = lowercase(source.artist.as_str());
        let target_artist = lowercase(target.artist.as_str());
        if source_artist == target_artist {
            score += 20;
        }

        // 6. Account for 1-3 seconds of variation in track duration
        let duration_gap: i64 = source.duration as i64 - target.duration as i64;
        if -3 <= duration_gap && duration_gap <= 3 {
            // An exact duration match is rated higher
            if source.duration == target.duration {
                score += 20;
            } else {
                score += 10;
            }
        }

        // 7. Track number: the source catalog resets the track number for
        // each disc, so the number is only reliable on single-disc releases
        if source.disc_number == 1 && source.track_number == target.track_number {
            score += 20;
        }

        score >= 70
    }
}

/// Law: two tracks that agree on artist (case-insensitively), title, album,
/// year and duration always match, whatever their track and disc numbers.
pub proof fn lemma_full_agreement_matches(source: Track, target: Track)
    requires
        lower_of(source.artist@) == lower_of(target.artist@),
        source.title@ == target.title@,
        source.album@ == target.album@,
        source.year == target.year,
        source.duration == target.duration,
    ensures
        spec_matches(source, target),
{
    assert(spec_album_points(source, target) == 20);
    assert(spec_title_points(source, target) == 20);
    assert(spec_match_score(source, target) >= 90);
}

/// Law: when two album names differ after lowercasing but one contains the
/// other (a suffix or prefix decoration), the album signal contributes
/// exactly 10 points — neither 20 nor 0.
pub proof fn lemma_album_decoration_scores_ten(source: Track, target: Track)
    requires
        lower_of(source.album@) != lower_of(target.album@),
        is_substring_of(lower_of(target.album@), lower_of(source.album@)) || is_substring_of(
            lower_of(source.album@),
            lower_of(target.album@),
        ),
    ensures
        spec_album_points(source, target) == 10,
{
}

/// Law: two tracks carrying the same non-empty ISRC match whenever the album
/// signal is non-zero, even if artist, title, duration and year all differ.
pub proof fn lemma_isrc_short_circuit(source: Track, target: Track)
    requires
        source.isrc is Some,
        target.isrc is Some,
        source.isrc->0@ == target.isrc->0@,
        source.isrc->0@.len() > 0,
        spec_album_points(source, target) > 0,
    ensures
        spec_matches(source, target),
{
}

/// Law: the track-number signal is excluded whenever the source record's
/// disc number is not 1, for all inputs.
pub proof fn lemma_track_number_excluded(source: Track, target: Track)
    requires
        source.disc_number != 1,
    ensures
        spec_track_number_points(source, target) == 0,
{
}

} // verus!
