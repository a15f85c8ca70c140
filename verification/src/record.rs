//! Raw service records and their translation into canonical [`Track`]s.
//!
//! Each remote service hands back its own record shape; only the plain fields
//! the pipeline reads are kept here.  A record that lacks a mandatory field
//! is invalid and is dropped at construction — no partially populated track
//! ever enters scoring.

use vstd::prelude::*;

use crate::track::{Track, TrackSource};

verus! {

/// A decimal digit.
pub open spec fn is_ascii_digit(c: char) -> bool {
    '0' as int <= c as int && c as int <= '9' as int
}

/// Every character of `s` is a decimal digit.
pub open spec fn all_ascii_digits(s: Seq<char>) -> bool {
    forall|i: int| 0 <= i < s.len() ==> is_ascii_digit(#[trigger] s[i])
}

/// The non-negative integer denoted by a sequence of decimal digits.
pub open spec fn spec_digits_val(s: Seq<char>) -> int
    decreases s.len(),
{
    if s.len() == 0 {
        0
    } else {
        spec_digits_val(s.drop_last()) * 10 + (s.last() as int - '0' as int)
    }
}

/// The signed 32-bit integer a string denotes: an optional `+` or `-` sign,
/// then one or more decimal digits, and the value must fit; anything else
/// does not parse.
pub open spec fn spec_parse_i32(s: Seq<char>) -> Option<i32> {
    let negative = s.len() > 0 && s[0] == '-';
    let digits = if s.len() > 0 && (s[0] == '-' || s[0] == '+') {
        s.drop_first()
    } else {
        s
    };
    if digits.len() == 0 || !all_ascii_digits(digits) {
        None
    } else {
        let magnitude = spec_digits_val(digits);
        if negative && magnitude <= 0x8000_0000 {
            Some((-magnitude) as i32)
        } else if !negative && magnitude <= 0x7fff_ffff {
            Some(magnitude as i32)
        } else {
            None
        }
    }
}

proof fn lemma_digits_val_nonneg(s: Seq<char>)
    requires
        all_ascii_digits(s),
    ensures
        spec_digits_val(s) >= 0,
    decreases s.len(),
{
    if s.len() > 0 {
        assert(all_ascii_digits(s.drop_last()));
        lemma_digits_val_nonneg(s.drop_last());
    }
}

proof fn lemma_digits_val_take(s: Seq<char>, j: int)
    requires
        all_ascii_digits(s),
        0 <= j <= s.len(),
    ensures
        spec_digits_val(s.take(j)) <= spec_digits_val(s),
    decreases s.len() - j,
{
    if j < s.len() {
        lemma_digits_val_take(s, j + 1);
        assert(all_ascii_digits(s.take(j)));
        lemma_digits_val_nonneg(s.take(j));
        assert(s.take(j + 1).drop_last() =~= s.take(j));
        assert(spec_digits_val(s.take(j + 1)) == spec_digits_val(s.take(j)) * 10 + (s[j] as int
            - '0' as int));
    } else {
        assert(s.take(j) =~= s);
    }
}

/// Parses a signed decimal 32-bit integer, exactly: an optional sign, one or
/// more digits, value in range — or nothing.
pub fn parse_i32(s: &str) -> (parsed: Option<i32>)
    ensures
        parsed == spec_parse_i32(s@),
{
    let n = s.unicode_len();
    if n == 0 {
        return None;
    }
    let first = s.get_char(0);
    let negative = first == '-';
    let start: usize = if first == '-' || first == '+' {
        1
    } else {
        0
    };
    if n == start {
        return None;
    }
    let ghost digits = if start == 1 {
        s@.drop_first()
    } else {
        s@
    };
    proof {
        assert(digits =~= s@.subrange(start as int, n as int));
    }
    let mut i: usize = start;
    let mut magnitude: i64 = 0;
    while i < n
        invariant
            start <= i <= n,
            n == s@.len(),
            start == 0 || start == 1,
            negative == (s@[0] == '-'),
            start == 1 ==> (s@[0] == '-' || s@[0] == '+'),
            start == 0 ==> n > 0 && s@[0] != '-' && s@[0] != '+',
            n > start,
            digits == s@.subrange(start as int, n as int),
            all_ascii_digits(s@.subrange(start as int, i as int)),
            magnitude == spec_digits_val(s@.subrange(start as int, i as int)),
            0 <= magnitude <= 0x8000_0000,
        decreases n - i,
    {
        let c = s.get_char(i);
        let code = c as u32;
        if code < 48 || code > 57 {
            proof {
                if start == 1 {
                    assert(digits =~= s@.drop_first());
                } else {
                    assert(digits =~= s@);
                }
                assert(digits[i - start] == s@[i as int]);
                assert(!is_ascii_digit(digits[i - start]));
                assert(!all_ascii_digits(digits));
            }
            return None;
        }
        let d: i64 = (code - 48) as i64;
        magnitude = magnitude * 10 + d;
        proof {
            assert(s@.subrange(start as int, i as int + 1).drop_last() =~= s@.subrange(
                start as int,
                i as int,
            ));
            assert(s@.subrange(start as int, i as int + 1).last() == s@[i as int]);
            assert(all_ascii_digits(s@.subrange(start as int, i as int + 1)));
        }
        if magnitude > 0x8000_0000 {
            proof {
                if start == 1 {
                    assert(digits =~= s@.drop_first());
                } else {
                    assert(digits =~= s@);
                }
                if all_ascii_digits(digits) {
                    assert(digits.take(i + 1 - start as int) =~= s@.subrange(
                        start as int,
                        i as int + 1,
                    ));
                    lemma_digits_val_take(digits, i + 1 - start as int);
                }
            }
            return None;
        }
        i += 1;
    }
    proof {
        if start == 1 {
            assert(digits =~= s@.drop_first());
        } else {
            assert(digits =~= s@);
        }
        assert(s@.subrange(start as int, n as int) =~= digits);
    }
    if negative {
        Some((-magnitude) as i32)
    } else {
        if magnitude <= 0x7fff_ffff {
            Some(magnitude as i32)
        } else {
            None
        }
    }
}

/// Position `i` holds the first `-` of `s`.
pub open spec fn is_first_dash(s: Seq<char>, i: int) -> bool {
    0 <= i < s.len() && s[i] == '-' && forall|j: int| 0 <= j < i ==> s[j] != '-'
}

/// The release year denoted by a service's release-date string: the part
/// before the first `-` read as a number (so "1975-02-24" gives 1975), and 0
/// when there is no `-` at all or the part before it does not parse.
pub open spec fn spec_release_year(date: Seq<char>) -> int {
    if exists|i: int| is_first_dash(date, i) {
        let cut = choose|i: int| is_first_dash(date, i);
        match spec_parse_i32(date.take(cut)) {
            Some(y) => y as int,
            None => 0,
        }
    } else {
        0
    }
}

/// Reads the release year out of a date string of the form "YYYY-MM-DD"
/// (0 when the string has no `-` or no readable year).
pub fn release_year(date: &str) -> (year: i32)
    ensures
        year as int == spec_release_year(date@),
{
    let n = date.unicode_len();
    let mut i: usize = 0;
    while i < n
        invariant
            i <= n,
            n == date@.len(),
            forall|j: int| 0 <= j < i ==> date@[j] != '-',
        decreases n - i,
    {
        if date.get_char(i) == '-' {
            proof {
                assert(is_first_dash(date@, i as int));
                let c = choose|k: int| is_first_dash(date@, k);
                if c < i as int {
                    assert(date@[c] != '-');
                }
                if c > i as int {
                    assert(date@[i as int] != '-');
                }
            }
            let prefix = date.substring_char(0, i);
            proof {
                assert(prefix@ =~= date@.take(i as int));
            }
            let parsed = parse_i32(prefix);
            return match parsed {
                Some(y) => y,
                None => 0,
            };
        }
        i += 1;
    }
    proof {
        if exists|k: int| is_first_dash(date@, k) {
            let c = choose|k: int| is_first_dash(date@, k);
            assert(date@[c] != '-');
        }
    }
    0
}

/// What the pipeline reads off one track of the source (streaming) service:
/// plain values only, extracted by the caller from the service's own record
/// shape.
pub struct SpotifyRecord {
    pub title: String,
    /// Name of the first listed artist, when the record names any artist.
    pub artist: Option<String>,
    pub album: String,
    /// The album's release date, usually "YYYY-MM-DD" or just "YYYY".
    pub release_date: Option<String>,
    /// Track length in whole seconds.
    pub duration: i32,
    pub track_number: u32,
    pub disc_number: i32,
    /// The service's track identifier, absent on local files.
    pub id: Option<String>,
    pub isrc: Option<String>,
}

/// What the pipeline reads off one track of the target (media-server)
/// service.
pub struct SubsonicRecord {
    pub title: String,
    pub artist: Option<String>,
    pub album: Option<String>,
    /// Track length in whole seconds, when the server reports one.
    pub duration: Option<i32>,
    pub track: Option<i32>,
    pub disc_number: Option<i32>,
    pub year: Option<i32>,
    pub id: String,
    pub isrc: Option<String>,
    pub musicbrainz_id: Option<String>,
}

/// The year a source record denotes: read out of the release date when one
/// is present.
pub open spec fn spec_spotify_year(release_date: Option<String>) -> int {
    match release_date {
        Some(d) => spec_release_year(d@),
        None => 0,
    }
}

/// The track a source record denotes, if it is valid: the artist and the
/// identifier must be present and the duration must be reliable
/// (non-negative).
pub open spec fn spec_track_from_spotify(rec: SpotifyRecord) -> Option<Track> {
    if rec.artist is Some && rec.id is Some && rec.duration >= 0 {
        Some(
            Track {
                title: rec.title,
                artist: rec.artist->0,
                album: rec.album,
                duration: rec.duration,
                track_number: rec.track_number,
                disc_number: rec.disc_number as u32,
                year: spec_spotify_year(rec.release_date) as i32,
                id: rec.id->0,
                isrc: rec.isrc,
                musicbrainz_id: None,
                track_source: TrackSource::Spotify,
            },
        )
    } else {
        None
    }
}

/// The track a target record denotes, if it is valid: artist, album,
/// duration, track number and year are mandatory, and the duration must be
/// reliable (non-negative).
pub open spec fn spec_track_from_subsonic(rec: SubsonicRecord) -> Option<Track> {
    if rec.artist is Some && rec.album is Some && rec.duration is Some && rec.duration->0 >= 0
        && rec.track is Some && rec.year is Some {
        Some(
            Track {
                title: rec.title,
                artist: rec.artist->0,
                album: rec.album->0,
                duration: rec.duration->0,
                track_number: rec.track->0 as u32,
                disc_number: (match rec.disc_number {
                    Some(d) => d,
                    None => 0,
                }) as u32,
                year: rec.year->0,
                id: rec.id,
                isrc: rec.isrc,
                musicbrainz_id: rec.musicbrainz_id,
                track_source: TrackSource::Subsonic,
            },
        )
    } else {
        None
    }
}

impl Track {
    /// Translates a raw source-service record, dropping invalid ones.
    pub fn from_spotify(rec: SpotifyRecord) -> (track: Option<Track>)
        ensures
            track == spec_track_from_spotify(rec),
    {
        let SpotifyRecord {
            title,
            artist,
            album,
            release_date,
            duration,
            track_number,
            disc_number,
            id,
            isrc,
        } = rec;
        let artist = match artist {
            Some(a) => a,
            None => {
                return None;
            },
        };
        let id = match id {
            Some(v) => v,
            None => {
                return None;
            },
        };
        if duration < 0 {
            return None;
        }
        let year = match &release_date {
            Some(d) => release_year(d.as_str()),
            None => 0,
        };
        Some(
            Track {
                title,
                artist,
                album,
                duration,
                track_number,
                disc_number: disc_number as u32,
                year,
                id,
                isrc,
                musicbrainz_id: None,
                track_source: TrackSource::Spotify,
            },
        )
    }

    /// Translates a raw target-service record, dropping invalid ones.
    pub fn from_subsonic(rec: SubsonicRecord) -> (track: Option<Track>)
        ensures
            track == spec_track_from_subsonic(rec),
    {
        let SubsonicRecord {
            title,
            artist,
            album,
            duration,
            track,
            disc_number,
            year,
            id,
            isrc,
            musicbrainz_id,
        } = rec;
        let artist = match artist {
            Some(a) => a,
            None => {
                return None;
            },
        };
        let album = match album {
            Some(a) => a,
            None => {
                return None;
            },
        };
        let duration = match duration {
            Some(d) => d,
            None => {
                return None;
            },
        };
        if duration < 0 {
            return None;
        }
        let track_number = match track {
            Some(t) => t,
            None => {
                return None;
            },
        };
        let year = match year {
            Some(y) => y,
            None => {
                return None;
            },
        };
        Some(
            Track {
                title,
                artist,
                album,
                duration,
                track_number: track_number as u32,
                disc_number: (match disc_number {
                    Some(d) => d,
                    None => 0,
                }) as u32,
                year,
                id,
                isrc,
                musicbrainz_id,
                track_source: TrackSource::Subsonic,
            },
        )
    }
}

} // verus!
