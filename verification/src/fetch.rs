//! The paginated catalog fetch, as a state machine.
//!
//! The target service's search endpoint is offset-paged: the caller asks for
//! a page at a monotonically increasing offset until a page comes back empty,
//! which signals exhaustion.  The fetch is eager — reconciliation against a
//! partial catalog would produce unrecoverable false negatives, so a caller
//! whose transport fails must abandon the whole run rather than hand over
//! what was gathered so far.  The network round-trips live with the caller;
//! this state machine decides the next offset, translates each raw record
//! (dropping invalid ones) and accumulates the catalog.

use vstd::prelude::*;

use crate::record::{spec_track_from_subsonic, SubsonicRecord};
use crate::track::Track;

verus! {

/// How many records one page of the target service's search endpoint holds.
pub const PAGE_SIZE: u64 = 20;

/// The valid tracks a page of raw records denotes, in page order.
pub open spec fn spec_page_tracks(page: Seq<SubsonicRecord>) -> Seq<Track> {
    page.filter_map(|r: SubsonicRecord| spec_track_from_subsonic(r))
}

/// Accumulates the full target catalog from consecutive pages.  The caller
/// loop asks [`CatalogFetcher::next_offset`] where to search next, performs
/// the round-trip, and hands the page to [`CatalogFetcher::feed_page`]; once
/// an empty page arrives the catalog is complete.
pub struct CatalogFetcher {
    /// Every valid track seen so far, in fetch order (first page first).
    pub songs: Vec<Track>,
    /// The offset the next page must be requested at.
    pub offset: u64,
    /// Whether the terminating empty page has been observed.
    pub done: bool,
}

impl CatalogFetcher {
    /// A fetch that has seen nothing yet and starts at offset 0.
    pub fn new() -> (fetcher: Self)
        ensures
            fetcher.songs@ == Seq::<Track>::empty(),
            fetcher.offset == 0,
            !fetcher.done,
    {
        CatalogFetcher { songs: Vec::new(), offset: 0, done: false }
    }

    /// Where the next page must be requested, or nothing once the catalog is
    /// complete.
    pub fn next_offset(&self) -> (offset: Option<u64>)
        ensures
            offset == if self.done {
                Option::<u64>::None
            } else {
                Option::Some(self.offset)
            },
    {
        if self.done {
            None
        } else {
            Some(self.offset)
        }
    }

    /// Consumes one page of raw records: an empty page completes the fetch;
    /// a non-empty page advances the offset by the page size and appends
    /// every valid record's track, in page order, dropping invalid records.
    pub fn feed_page(&mut self, page: Vec<SubsonicRecord>)
        requires
            !old(self).done,
            old(self).offset + PAGE_SIZE <= u64::MAX,
        ensures
            final(self).songs@ == old(self).songs@ + spec_page_tracks(page@),
            final(self).done == (page@.len() == 0),
            final(self).offset == if page@.len() == 0 {
                old(self).offset as int
            } else {
                old(self).offset + PAGE_SIZE
            },
    {
        if page.is_empty() {
            self.done = true;
            proof {
                assert(spec_page_tracks(page@) =~= Seq::<Track>::empty());
                assert(old(self).songs@ + spec_page_tracks(page@) =~= old(self).songs@);
            }
            return;
        }
        self.offset = self.offset + PAGE_SIZE;
        let ghost all = page@;
        let mut page = page;
        while page.len() > 0
            invariant
                page@.len() <= all.len(),
                page@ == all.skip(all.len() - page@.len()),
                self.done == old(self).done,
                self.offset == old(self).offset + PAGE_SIZE,
                self.songs@ == old(self).songs@ + spec_page_tracks(
                    all.take(all.len() - page@.len()),
                ),
            decreases page@.len(),
        {
            let ghost k = all.len() - page@.len();
            let rec = page.remove(0);
            proof {
                assert(all.skip(k)[0] == all[k]);
                assert(all.skip(k).remove(0) =~= all.skip(k + 1));
                assert(all.take(k + 1).drop_last() =~= all.take(k));
                assert(all.take(k + 1).last() == all[k]);
            }
            if let Some(track) = Track::from_subsonic(rec) {
                self.songs.push(track);
            }
            proof {
                assert(self.songs@ =~= old(self).songs@ + spec_page_tracks(all.take(k + 1)));
            }
        }
        proof {
            assert(all.take(all.len() as int) =~= all);
        }
    }

    /// Hands out the complete catalog; only meaningful once the terminating
    /// empty page has been observed — a partial catalog is never accepted.
    pub fn into_catalog(self) -> (catalog: Vec<Track>)
        requires
            self.done,
        ensures
            catalog@ == self.songs@,
    {
        let CatalogFetcher { songs, offset: _, done: _ } = self;
        songs
    }
}

/// A page can never contribute more tracks than it has records.
pub proof fn lemma_page_tracks_len(page: Seq<SubsonicRecord>)
    ensures
        spec_page_tracks(page).len() <= page.len(),
    decreases page.len(),
{
    if page.len() > 0 {
        lemma_page_tracks_len(page.drop_last());
    }
}

/// Law: a page of nothing but valid records contributes exactly one track
/// per record — the fetch returns all records, so finitely many pages ending
/// in the empty page yield the whole catalog (pages of sizes 20, 20 and 7
/// yield 47 tracks).
pub proof fn lemma_page_all_valid(page: Seq<SubsonicRecord>)
    requires
        forall|i: int|
            0 <= i < page.len() ==> spec_track_from_subsonic(#[trigger] page[i]) is Some,
    ensures
        spec_page_tracks(page).len() == page.len(),
    decreases page.len(),
{
    if page.len() > 0 {
        assert(forall|i: int|
            0 <= i < page.drop_last().len() ==> spec_track_from_subsonic(
                #[trigger] page.drop_last()[i],
            ) is Some);
        lemma_page_all_valid(page.drop_last());
    }
}

} // verus!
