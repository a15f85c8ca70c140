use tune_tracker::fetch::CatalogFetcher;
use tune_tracker::record::{parse_i32, release_year, SpotifyRecord, SubsonicRecord};
use tune_tracker::track::{Track, TrackSource};

fn valid_record(n: u32) -> SubsonicRecord {
    SubsonicRecord {
        title: format!("Song {}", n),
        artist: Some(String::from("The Band")),
        album: Some(String::from("Album")),
        duration: Some(200),
        track: Some(n as i32),
        disc_number: Some(1),
        year: Some(1999),
        id: format!("id-{}", n),
        isrc: None,
        musicbrainz_id: None,
    }
}

#[test]
fn fetch_assembles_all_pages() {
    // Pages of sizes 20, 20, 7 and the terminating empty page give a
    // 47-track catalog
    let mut fetcher = CatalogFetcher::new();
    assert_eq!(fetcher.next_offset(), Some(0));

    fetcher.feed_page((0..20).map(valid_record).collect());
    assert_eq!(fetcher.next_offset(), Some(20));

    fetcher.feed_page((20..40).map(valid_record).collect());
    assert_eq!(fetcher.next_offset(), Some(40));

    fetcher.feed_page((40..47).map(valid_record).collect());
    assert_eq!(fetcher.next_offset(), Some(60));

    fetcher.feed_page(Vec::new());
    assert_eq!(fetcher.next_offset(), None);

    let catalog = fetcher.into_catalog();
    assert_eq!(catalog.len(), 47);
    // Fetch order is kept: first page first
    assert_eq!(catalog[0].id, "id-0");
    assert_eq!(catalog[46].id, "id-46");
}

#[test]
fn fetch_ends_on_an_immediately_empty_catalog() {
    let mut fetcher = CatalogFetcher::new();
    fetcher.feed_page(Vec::new());
    assert_eq!(fetcher.next_offset(), None);
    assert_eq!(fetcher.into_catalog().len(), 0);
}

#[test]
fn invalid_records_are_dropped_from_a_page() {
    let mut incomplete = valid_record(1);
    incomplete.artist = None;
    let mut unreliable = valid_record(2);
    unreliable.duration = None;

    let mut fetcher = CatalogFetcher::new();
    fetcher.feed_page(vec![valid_record(0), incomplete, unreliable, valid_record(3)]);
    fetcher.feed_page(Vec::new());

    let catalog = fetcher.into_catalog();
    assert_eq!(catalog.len(), 2);
    assert_eq!(catalog[0].id, "id-0");
    assert_eq!(catalog[1].id, "id-3");
}

#[test]
fn subsonic_record_translation() {
    let track = Track::from_subsonic(valid_record(7)).unwrap();
    assert_eq!(track.title, "Song 7");
    assert_eq!(track.artist, "The Band");
    assert_eq!(track.album, "Album");
    assert_eq!(track.duration, 200);
    assert_eq!(track.track_number, 7);
    assert_eq!(track.disc_number, 1);
    assert_eq!(track.year, 1999);
    assert_eq!(track.id, "id-7");
    assert_eq!(track.track_source, TrackSource::Subsonic);

    let mut no_disc = valid_record(7);
    no_disc.disc_number = None;
    assert_eq!(Track::from_subsonic(no_disc).unwrap().disc_number, 0);

    let mut no_year = valid_record(7);
    no_year.year = None;
    assert!(Track::from_subsonic(no_year).is_none());

    let mut no_album = valid_record(7);
    no_album.album = None;
    assert!(Track::from_subsonic(no_album).is_none());

    let mut no_track_number = valid_record(7);
    no_track_number.track = None;
    assert!(Track::from_subsonic(no_track_number).is_none());

    let mut negative_duration = valid_record(7);
    negative_duration.duration = Some(-3);
    assert!(Track::from_subsonic(negative_duration).is_none());
}

fn spotify_record() -> SpotifyRecord {
    SpotifyRecord {
        title: String::from("The Wanton Song - Remaster"),
        artist: Some(String::from("Led Zeppelin")),
        album: String::from("Physical Graffiti (Remaster)"),
        release_date: Some(String::from("1975-02-24")),
        duration: 248,
        track_number: 6,
        disc_number: 2,
        id: Some(String::from("spotify-id")),
        isrc: Some(String::from("USAT21300975")),
    }
}

#[test]
fn spotify_record_translation() {
    let track = Track::from_spotify(spotify_record()).unwrap();
    assert_eq!(track.title, "The Wanton Song - Remaster");
    assert_eq!(track.artist, "Led Zeppelin");
    assert_eq!(track.year, 1975);
    assert_eq!(track.disc_number, 2);
    assert_eq!(track.track_source, TrackSource::Spotify);
    assert_eq!(track.isrc.as_deref(), Some("USAT21300975"));
    assert_eq!(track.musicbrainz_id, None);

    let mut no_artist = spotify_record();
    no_artist.artist = None;
    assert!(Track::from_spotify(no_artist).is_none());

    let mut no_id = spotify_record();
    no_id.id = None;
    assert!(Track::from_spotify(no_id).is_none());

    let mut no_date = spotify_record();
    no_date.release_date = None;
    assert_eq!(Track::from_spotify(no_date).unwrap().year, 0);
}

#[test]
fn release_year_reads_the_part_before_the_first_dash() {
    assert_eq!(release_year("1975-02-24"), 1975);
    assert_eq!(release_year("2011-01"), 2011);
    // A bare year carries no dash, so nothing is read
    assert_eq!(release_year("1975"), 0);
    assert_eq!(release_year(""), 0);
    assert_eq!(release_year("-1975-01"), 0);
    assert_eq!(release_year("abc-01"), 0);
}

#[test]
fn parse_i32_exactly() {
    assert_eq!(parse_i32("19"), Some(19));
    assert_eq!(parse_i32("+2001"), Some(2001));
    assert_eq!(parse_i32("-48"), Some(-48));
    assert_eq!(parse_i32("0"), Some(0));
    assert_eq!(parse_i32("2147483647"), Some(i32::MAX));
    assert_eq!(parse_i32("2147483648"), None);
    assert_eq!(parse_i32("-2147483648"), Some(i32::MIN));
    assert_eq!(parse_i32("-2147483649"), None);
    assert_eq!(parse_i32("99999999999999999999"), None);
    assert_eq!(parse_i32(""), None);
    assert_eq!(parse_i32("+"), None);
    assert_eq!(parse_i32("-"), None);
    assert_eq!(parse_i32("12a"), None);
    assert_eq!(parse_i32(" 12"), None);
}
