use tune_tracker::reconcile::search;
use tune_tracker::track::{Track, TrackSource};

fn track(
    title: &str,
    artist: &str,
    album: &str,
    duration: i32,
    track_number: u32,
    disc_number: u32,
    year: i32,
    isrc: Option<&str>,
    track_source: TrackSource,
) -> Track {
    Track {
        title: String::from(title),
        artist: String::from(artist),
        album: String::from(album),
        duration,
        track_number,
        disc_number,
        year,
        id: String::from("xxx"),
        isrc: isrc.map(String::from),
        musicbrainz_id: None,
        track_source,
    }
}

#[test]
fn test_matching() {
    // Using example songs from spotify
    let spotify_songs = vec![
        track(
            "St. Tristan's Sword - Rough Mix",
            "Led Zeppelin",
            "Coda (Deluxe Edition)",
            341,
            3,
            3,
            1982,
            Some("USAT21500101"),
            TrackSource::Spotify,
        ),
        track(
            "The Court Of The Crimson King",
            "King Crimson",
            "In The Court Of The Crimson King (Expanded & Remastered Original Album Mix)",
            602,
            5,
            1,
            1969,
            Some("GBCTX1400804"),
            TrackSource::Spotify,
        ),
        track(
            "Pictures Of A City",
            "King Crimson",
            "In The Wake Of Poseidon",
            481,
            2,
            1,
            1970,
            Some("GBCTX1500265"),
            TrackSource::Spotify,
        ),
        track(
            "The Wanton Song - Remaster",
            "Led Zeppelin",
            "Physical Graffiti (Remaster)",
            248,
            6,
            2,
            1975,
            Some("USAT21300975"),
            TrackSource::Spotify,
        ),
        track(
            "The Sky Is Fallin'",
            "Queens of the Stone Age",
            "Songs For The Deaf",
            376,
            5,
            1,
            2002,
            Some("USIR10211296"),
            TrackSource::Spotify,
        ),
        track(
            "Street Spirit (Fade Out)",
            "Radiohead",
            "The Bends",
            253,
            12,
            1,
            1995,
            Some("GBAYE9400061"),
            TrackSource::Spotify,
        ),
    ];

    // The same songs' information from a navidrome instance, tagged
    // automatically by the beets autotagger
    let subsonic_songs = vec![
        track(
            "The Sky Is Fallin'",
            "Queens of the Stone Age",
            "Songs For The Deaf",
            375,
            6,
            1,
            2002,
            Some("USIR10211296"),
            TrackSource::Subsonic,
        ),
        track(
            "Pictures of a City (including 42nd at Treadmill)",
            "King Crimson",
            "In the Wake of Poseidon",
            482,
            2,
            1,
            // This album's release date is tagged with the year of the
            // remaster, not the year of the original release
            2011,
            Some("GBCTX9900221"),
            TrackSource::Subsonic,
        ),
        track(
            "The Wanton Song",
            "Led Zeppelin",
            "Physical Graffiti",
            249,
            12,
            2,
            // Another incorrectly tagged album release year
            1995,
            Some("USAT21300975"),
            TrackSource::Subsonic,
        ),
        track(
            "Street Spirit",
            "Radiohead",
            "The Bends",
            254,
            12,
            1,
            1994,
            Some("GBAYE9400061"),
            TrackSource::Subsonic,
        ),
        track(
            "The Court of the Crimson King",
            "King Crimson",
            "In the Court of the Crimson King",
            567,
            5,
            1,
            2019,
            Some("B07X13ZHG9"),
            TrackSource::Subsonic,
        ),
        track(
            "St. Tristan’s Sword (rough mix)",
            "Led Zeppelin",
            "Coda",
            341,
            19,
            3,
            2015,
            None,
            TrackSource::Subsonic,
        ),
    ];

    let matches: Vec<Track> = spotify_songs
        .into_iter()
        .map(|t| search(t, &subsonic_songs))
        .filter(|t| t.track_source == TrackSource::Subsonic)
        .collect();

    // Five of the six pairs match.  "St. Tristan's Sword" stays unmatched:
    // its album signal is 10 (substring), artist 20, duration 20, while the
    // titles differ in punctuation, the years differ, the disc number is 3
    // (so track numbers are ignored) and the server record carries no ISRC —
    // 50 points is below the threshold of 70.
    assert_eq!(matches.len(), 5)
}

#[test]
fn full_metadata_agreement_matches_regardless_of_numbers() {
    let a = track("Hey", "The Band", "Album", 200, 3, 7, 1999, None, TrackSource::Spotify);
    let b = track("Hey", "THE BAND", "Album", 200, 11, 2, 1999, None, TrackSource::Subsonic);
    assert!(Track::match_tracks(&a, &b));
}

#[test]
fn album_substring_scores_exactly_ten() {
    assert_eq!(
        Track::string_comparisons("Physical Graffiti (Remaster)", "Physical Graffiti"),
        10
    );
    assert_eq!(
        Track::string_comparisons("Physical Graffiti", "Physical Graffiti (Remaster)"),
        10
    );
}

#[test]
fn string_comparisons_exact_and_unrelated() {
    assert_eq!(Track::string_comparisons("Coda", "coda"), 20);
    assert_eq!(Track::string_comparisons("", ""), 20);
    assert_eq!(Track::string_comparisons("Coda", "Presence"), 0);
}

#[test]
fn isrc_short_circuit_overrides_everything_else() {
    // Only the ISRC and a slight album similarity agree; artist, title,
    // duration and year all differ
    let a = track(
        "Some Song",
        "Artist One",
        "Greatest Hits (Deluxe)",
        100,
        1,
        1,
        1980,
        Some("USXYZ0000001"),
        TrackSource::Spotify,
    );
    let b = track(
        "Another Title",
        "Artist Two",
        "Greatest Hits",
        500,
        9,
        1,
        2015,
        Some("USXYZ0000001"),
        TrackSource::Subsonic,
    );
    assert!(Track::match_tracks(&a, &b));
}

#[test]
fn isrc_without_album_similarity_does_not_short_circuit() {
    let a = track(
        "Some Song",
        "Artist One",
        "Completely Different",
        100,
        1,
        1,
        1980,
        Some("USXYZ0000001"),
        TrackSource::Spotify,
    );
    let b = track(
        "Another Title",
        "Artist Two",
        "Greatest Hits",
        500,
        9,
        1,
        2015,
        Some("USXYZ0000001"),
        TrackSource::Subsonic,
    );
    assert!(!Track::match_tracks(&a, &b));
}

#[test]
fn track_number_ignored_on_multi_disc_source() {
    // Album exact (20) + artist (20) + duration within tolerance (10) = 50;
    // the equal track numbers would add 20, but only on disc 1
    let mut a = track("One Title", "The Band", "Album", 200, 4, 2, 1999, None, TrackSource::Spotify);
    let b = track("Other Title", "The Band", "Album", 202, 4, 1, 1998, None, TrackSource::Subsonic);
    assert!(!Track::match_tracks(&a, &b));
    a.disc_number = 1;
    assert!(Track::match_tracks(&a, &b));
}

#[test]
fn wanton_song_matches_only_through_isrc() {
    // Album 10 + title 10 + artist 20 + duration 10 = 50: below threshold,
    // so the pair stands or falls with the ISRC short-circuit
    let with_isrc_source = track(
        "The Wanton Song - Remaster",
        "Led Zeppelin",
        "Physical Graffiti (Remaster)",
        248,
        6,
        2,
        1975,
        Some("USAT21300975"),
        TrackSource::Spotify,
    );
    let with_isrc_target = track(
        "The Wanton Song",
        "Led Zeppelin",
        "Physical Graffiti",
        249,
        12,
        2,
        1995,
        Some("USAT21300975"),
        TrackSource::Subsonic,
    );
    assert!(Track::match_tracks(&with_isrc_source, &with_isrc_target));

    let mut without_isrc_source = with_isrc_source.clone();
    without_isrc_source.isrc = None;
    assert!(!Track::match_tracks(&without_isrc_source, &with_isrc_target));
}

#[test]
fn search_returns_first_match_or_source() {
    let source = track("Hey", "The Band", "Album", 200, 1, 1, 1999, None, TrackSource::Spotify);
    let miss = track("Nope", "Someone", "Else", 10, 1, 1, 2000, None, TrackSource::Subsonic);
    let hit_one = track("Hey", "The Band", "Album", 200, 1, 1, 1999, None, TrackSource::Subsonic);
    let mut hit_two = hit_one.clone();
    hit_two.id = String::from("second");

    let catalog = vec![miss.clone(), hit_one.clone(), hit_two];
    let found = search(source.clone(), &catalog);
    assert_eq!(found, hit_one);

    let empty_catalog: Vec<Track> = Vec::new();
    let unmatched = search(source.clone(), &empty_catalog);
    assert_eq!(unmatched, source);

    let misses = vec![miss];
    let unmatched = search(source.clone(), &misses);
    assert_eq!(unmatched, source);
}

#[test]
fn exact_duration_scores_twenty() {
    // Album (20) + artist (20) + year (10) = 50; the duration signal alone
    // decides: exact agreement adds 20 and reaches the threshold, a
    // three-second gap adds only 10
    let a = track("One Song", "The Band", "Album", 200, 1, 2, 1999, None, TrackSource::Spotify);
    let exact = track("Other", "The Band", "Album", 200, 2, 1, 1999, None, TrackSource::Subsonic);
    let close = track("Other", "The Band", "Album", 203, 2, 1, 1999, None, TrackSource::Subsonic);
    assert!(Track::match_tracks(&a, &exact));
    assert!(!Track::match_tracks(&a, &close));
}

#[test]
fn duration_within_three_seconds_scores_ten() {
    // Album (20) + artist (20) + year (10) + title substring (10) = 60; a
    // duration within the three-second tolerance adds 10 and reaches the
    // threshold, one second past it adds nothing
    let a = track("One Song (Live)", "The Band", "Album", 200, 1, 2, 1999, None, TrackSource::Spotify);
    let close = track("One Song", "The Band", "Album", 203, 2, 1, 1999, None, TrackSource::Subsonic);
    let far = track("One Song", "The Band", "Album", 204, 2, 1, 1999, None, TrackSource::Subsonic);
    assert!(Track::match_tracks(&a, &close));
    assert!(!Track::match_tracks(&a, &far));
}
