//! The reconciliation pipeline: maps every source track, in order, onto the
//! first target-catalog track the scorer accepts, keeps unmatched entries as
//! placeholders so an optional fallback resolver can fill them in, and
//! finally drops whatever stayed unresolved.

use vstd::prelude::*;

use crate::matching::spec_matches;
use crate::text::{upper_of, uppercase};
use crate::track::{Track, TrackSource};

verus! {

/// The first track of `catalog` that matches `source`, or `source` itself as
/// a placeholder when none does.
pub open spec fn spec_search(source: Track, catalog: Seq<Track>) -> Track
    decreases catalog.len(),
{
    if catalog.len() == 0 {
        source
    } else if spec_matches(source, catalog[0]) {
        catalog[0]
    } else {
        spec_search(source, catalog.drop_first())
    }
}

proof fn lemma_spec_search_step(source: Track, catalog: Seq<Track>, i: int)
    requires
        0 <= i < catalog.len(),
        forall|j: int| 0 <= j < i ==> !spec_matches(source, #[trigger] catalog[j]),
    ensures
        spec_search(source, catalog) == spec_search(source, catalog.skip(i)),
    decreases i,
{
    if i > 0 {
        lemma_spec_search_step(source, catalog, i - 1);
        assert(catalog.skip(i - 1).drop_first() =~= catalog.skip(i));
        assert(catalog.skip(i - 1)[0] == catalog[i - 1]);
    } else {
        assert(catalog.skip(0) =~= catalog);
    }
}

/// Characterisation of `spec_search`: it returns the first match when one
/// exists, and the source placeholder otherwise.
pub proof fn lemma_spec_search_first_match(source: Track, catalog: Seq<Track>)
    ensures
        (forall|i: int| 0 <= i < catalog.len() ==> !spec_matches(source, #[trigger] catalog[i]))
            ==> spec_search(source, catalog) == source,
        (exists|i: int| 0 <= i < catalog.len() && spec_matches(source, #[trigger] catalog[i]))
            ==> exists|i: int|
            {
                &&& 0 <= i < catalog.len()
                &&& spec_matches(source, #[trigger] catalog[i])
                &&& spec_search(source, catalog) == catalog[i]
                &&& forall|j: int| 0 <= j < i ==> !spec_matches(source, #[trigger] catalog[j])
            },
    decreases catalog.len(),
{
    if catalog.len() > 0 && !spec_matches(source, catalog[0]) {
        lemma_spec_search_first_match(source, catalog.drop_first());
        if exists|i: int| 0 <= i < catalog.len() && spec_matches(source, #[trigger] catalog[i]) {
            let w = choose|i: int|
                0 <= i < catalog.len() && spec_matches(source, #[trigger] catalog[i]);
            assert(catalog.drop_first()[w - 1] == catalog[w]);
            let v = choose|i: int|
                {
                    &&& 0 <= i < catalog.drop_first().len()
                    &&& spec_matches(source, #[trigger] catalog.drop_first()[i])
                    &&& spec_search(source, catalog.drop_first()) == catalog.drop_first()[i]
                    &&& forall|j: int|
                        0 <= j < i ==> !spec_matches(source, #[trigger] catalog.drop_first()[j])
                };
            assert(catalog.drop_first()[v] == catalog[v + 1]);
            assert forall|j: int| 0 <= j < v + 1 implies !spec_matches(
                source,
                #[trigger] catalog[j],
            ) by {
                if j > 0 {
                    assert(catalog.drop_first()[j - 1] == catalog[j]);
                }
            }
        }
    }
}

/// Takes a single source track and a slice of target tracks and compares the
/// source against each item of the slice, returning the first track that
/// matches, or the source track itself if no match is found.
///
/// The source playlist must be recreated 1:1 even when a track does not
/// match: the unmatched entry keeps its position so that a later pass can
/// offer it to a fallback resolver.
pub fn search(source_track: Track, collection: &[Track]) -> (found: Track)
    ensures
        found == spec_search(source_track, collection@),
        (forall|i: int|
            0 <= i < collection@.len() ==> !spec_matches(source_track, #[trigger] collection@[i]))
            ==> found == source_track,
        (exists|i: int|
            0 <= i < collection@.len() && spec_matches(source_track, #[trigger] collection@[i]))
            ==> exists|i: int|
            {
                &&& 0 <= i < collection@.len()
                &&& spec_matches(source_track, #[trigger] collection@[i])
                &&& found == collection@[i]
                &&& forall|j: int| 0 <= j < i ==> !spec_matches(source_track, collection@[j])
            },
{
    proof {
        lemma_spec_search_first_match(source_track, collection@);
    }
    let n = collection.len();
    let mut idx: usize = 0;
    while idx < n
        invariant
            n == collection@.len(),
            idx <= n,
            forall|j: int| 0 <= j < idx ==> !spec_matches(source_track, #[trigger] collection@[j]),
        decreases n - idx,
    {
        let target_track = vstd::slice::slice_index_get(collection, idx);
        if Track::match_tracks(&source_track, target_track) {
            proof {
                lemma_spec_search_step(source_track, collection@, idx as int);
                assert(collection@.skip(idx as int)[0] == collection@[idx as int]);
            }
            return target_track.clone();
        }
        idx += 1;
    }
    proof {
        if n > 0 {
            lemma_spec_search_step(source_track, collection@, n as int - 1);
            assert(collection@.skip(n as int - 1).drop_first() =~= collection@.skip(n as int));
            assert(collection@.skip(n as int - 1)[0] == collection@[n as int - 1]);
        }
        assert(collection@.skip(n as int).len() == 0);
    }
    source_track
}

/// The automatic first pass over a whole source sequence: every entry is
/// replaced by its first catalog match, or kept as a placeholder.
pub open spec fn spec_pass1(source: Seq<Track>, catalog: Seq<Track>) -> Seq<Track> {
    source.map_values(|t: Track| spec_search(t, catalog))
}

/// A track is resolved once it denotes a record of the target catalog;
/// entries still carrying the source origin are the unresolved placeholders.
pub open spec fn spec_is_resolved(t: Track) -> bool {
    t.track_source == TrackSource::Subsonic
}

/// Dropping every entry that stayed unresolved, keeping the rest in order.
pub open spec fn spec_finalize(tracks: Seq<Track>) -> Seq<Track> {
    tracks.filter(|t: Track| spec_is_resolved(t))
}

/// The whole pipeline without a fallback resolver: automatic pass, then drop
/// the unresolved placeholders.
pub open spec fn spec_reconcile(source: Seq<Track>, catalog: Seq<Track>) -> Seq<Track> {
    spec_finalize(spec_pass1(source, catalog))
}

/// Pass 1: match every source track, in source order, against the catalog.
/// The output has exactly one entry per source entry, in the same order.
pub fn reconcile_pass1(source: Vec<Track>, catalog: &[Track]) -> (matched: Vec<Track>)
    ensures
        matched@ == spec_pass1(source@, catalog@),
        matched@.len() == source@.len(),
        forall|i: int|
            0 <= i < source@.len() ==> matched@[i] == spec_search(source@[i], catalog@),
{
    let n = source.len();
    let mut matched: Vec<Track> = Vec::new();
    let mut idx: usize = 0;
    while idx < n
        invariant
            n == source@.len(),
            idx <= n,
            matched@.len() == idx,
            forall|k: int| 0 <= k < idx ==> matched@[k] == spec_search(source@[k], catalog@),
        decreases n - idx,
    {
        let entry = source[idx].clone();
        matched.push(search(entry, catalog));
        idx += 1;
    }
    proof {
        assert(matched@ =~= spec_pass1(source@, catalog@));
    }
    matched
}

/// Whether an entry is still unresolved after the automatic pass, i.e. still
/// carries the source origin and should be offered to the fallback resolver.
pub fn is_unresolved(track: &Track) -> (r: bool)
    ensures
        r == !spec_is_resolved(*track),
{
    !matches!(track.track_source, TrackSource::Subsonic)
}

/// What one fallback-resolution step leaves in place: the resolver's answer
/// replaces an unresolved entry; a resolved entry, or an absent answer,
/// leaves the entry as it was.
pub open spec fn spec_apply_resolution(entry: Track, answer: Option<Track>) -> Track {
    if !spec_is_resolved(entry) && answer is Some {
        answer->0
    } else {
        entry
    }
}

/// Pass 2, one entry at a time: combine an entry with the fallback
/// resolver's answer for it.  The caller invokes the resolver strictly in
/// source order, one entry after the other, so ordering stays deterministic.
pub fn apply_resolution(entry: Track, answer: Option<Track>) -> (r: Track)
    ensures
        r == spec_apply_resolution(entry, answer),
{
    if is_unresolved(&entry) {
        match answer {
            Some(t) => t,
            None => entry,
        }
    } else {
        entry
    }
}

/// Finalization: entries that remain unresolved are dropped from the output
/// entirely — the write-back path cannot address tracks by position, so gaps
/// must be elided rather than left as holes.
pub fn finalize(tracks: Vec<Track>) -> (kept: Vec<Track>)
    ensures
        kept@ == spec_finalize(tracks@),
{
    let n = tracks.len();
    let mut kept: Vec<Track> = Vec::new();
    let mut idx: usize = 0;
    while idx < n
        invariant
            n == tracks@.len(),
            idx <= n,
            kept@ == tracks@.take(idx as int).filter(|t: Track| spec_is_resolved(t)),
        decreases n - idx,
    {
        let entry = tracks[idx].clone();
        proof {
            reveal(Seq::filter);
            assert(tracks@.take(idx as int + 1).drop_last() =~= tracks@.take(idx as int));
            assert(tracks@.take(idx as int + 1).last() == tracks@[idx as int]);
        }
        if !is_unresolved(&entry) {
            kept.push(entry);
        }
        idx += 1;
    }
    proof {
        assert(tracks@.take(n as int) =~= tracks@);
    }
    kept
}

/// The reconciliation pipeline without a fallback resolver: the automatic
/// pass followed by finalization.  The relative order of all resolved
/// entries in the output exactly matches their relative order in the source
/// sequence; unresolved entries leave no trace.
pub fn reconcile(source: Vec<Track>, catalog: &[Track]) -> (out: Vec<Track>)
    ensures
        out@ == spec_reconcile(source@, catalog@),
{
    let matched = reconcile_pass1(source, catalog);
    finalize(matched)
}

/// The identifiers of the given tracks, in order — what the playlist
/// write-back call is handed.
pub fn track_ids(tracks: Vec<Track>) -> (ids: Vec<String>)
    ensures
        ids@ == tracks@.map_values(|t: Track| t.id),
{
    let n = tracks.len();
    let mut ids: Vec<String> = Vec::new();
    let mut idx: usize = 0;
    while idx < n
        invariant
            n == tracks@.len(),
            idx <= n,
            ids@.len() == idx,
            forall|k: int| 0 <= k < idx ==> ids@[k] == tracks@[k].id,
        decreases n - idx,
    {
        ids.push(tracks[idx].id.clone());
        idx += 1;
    }
    proof {
        assert(ids@ =~= tracks@.map_values(|t: Track| t.id));
    }
    ids
}

/// `a` is an order-preserving selection from `b`: some strictly increasing
/// choice of positions of `b` yields exactly `a`.
pub open spec fn is_subsequence_of(a: Seq<Track>, b: Seq<Track>) -> bool {
    exists|pos: Seq<int>|
        #![trigger pos.len()]
        {
            &&& pos.len() == a.len()
            &&& forall|k: int| 0 <= k < pos.len() ==> 0 <= #[trigger] pos[k] < b.len()
            &&& forall|k: int| 0 <= k < pos.len() - 1 ==> #[trigger] pos[k] < pos[k + 1]
            &&& forall|k: int| 0 <= k < pos.len() ==> a[k] == b[#[trigger] pos[k]]
        }
}

proof fn lemma_filter_is_subsequence(s: Seq<Track>, pred: spec_fn(Track) -> bool)
    ensures
        is_subsequence_of(s.filter(pred), s),
    decreases s.len(),
{
    reveal(Seq::filter);
    if s.len() == 0 {
        let pos = Seq::<int>::empty();
        assert(pos.len() == s.filter(pred).len());
        assert(is_subsequence_of(s.filter(pred), s));
    } else {
        let rest = s.drop_last();
        lemma_filter_is_subsequence(rest, pred);
        let rpos = choose|pos: Seq<int>|
            #![trigger pos.len()]
            {
                &&& pos.len() == rest.filter(pred).len()
                &&& forall|k: int| 0 <= k < pos.len() ==> 0 <= #[trigger] pos[k] < rest.len()
                &&& forall|k: int| 0 <= k < pos.len() - 1 ==> #[trigger] pos[k] < pos[k + 1]
                &&& forall|k: int|
                    0 <= k < pos.len() ==> rest.filter(pred)[k] == rest[#[trigger] pos[k]]
            };
        if pred(s.last()) {
            let pos = rpos.push(rest.len() as int);
            assert(s.filter(pred) == rest.filter(pred).push(s.last()));
            assert(pos.len() == s.filter(pred).len());
            assert forall|k: int| 0 <= k < pos.len() implies s.filter(pred)[k]
                == s[#[trigger] pos[k]] by {
                if k < pos.len() - 1 {
                    assert(pos[k] == rpos[k]);
                    assert(s.filter(pred)[k] == rest.filter(pred)[k]);
                    assert(rest[rpos[k]] == s[rpos[k]]);
                } else {
                    assert(pos[k] == rest.len());
                    assert(s.filter(pred)[k] == s.last());
                }
            }
            assert(forall|k: int| 0 <= k < pos.len() ==> 0 <= #[trigger] pos[k] < s.len());
            assert(forall|k: int| 0 <= k < pos.len() - 1 ==> #[trigger] pos[k] < pos[k + 1]);
            assert(is_subsequence_of(s.filter(pred), s));
        } else {
            assert forall|k: int| 0 <= k < rpos.len() implies s.filter(pred)[k]
                == s[#[trigger] rpos[k]] by {
                assert(rest[rpos[k]] == s[rpos[k]]);
            }
            assert(is_subsequence_of(s.filter(pred), s));
        }
    }
}

proof fn lemma_filter_split_len(s: Seq<Track>)
    ensures
        s.filter(|t: Track| spec_is_resolved(t)).len() + s.filter(
            |t: Track| !spec_is_resolved(t),
        ).len() == s.len(),
    decreases s.len(),
{
    reveal(Seq::filter);
    if s.len() > 0 {
        lemma_filter_split_len(s.drop_last());
    }
}

/// Law: the pipeline's output is never longer than its source sequence, and
/// it is an order-preserving selection (a subsequence) of the automatic
/// pass's per-entry results, which mirror the source sequence position by
/// position.
pub proof fn lemma_reconcile_order_preserving(source: Seq<Track>, catalog: Seq<Track>)
    ensures
        spec_reconcile(source, catalog).len() <= source.len(),
        is_subsequence_of(spec_reconcile(source, catalog), spec_pass1(source, catalog)),
        spec_pass1(source, catalog).len() == source.len(),
        forall|i: int|
            0 <= i < source.len() ==> spec_pass1(source, catalog)[i] == spec_search(
                #[trigger] source[i],
                catalog,
            ),
{
    let pass1 = spec_pass1(source, catalog);
    pass1.lemma_filter_len(|t: Track| spec_is_resolved(t));
    lemma_filter_is_subsequence(pass1, |t: Track| spec_is_resolved(t));
}

/// Law: re-running the pipeline on the same source sequence and target
/// catalog yields the identical output — the pipeline is a pure function of
/// its inputs.
pub proof fn lemma_reconcile_deterministic(
    source1: Seq<Track>,
    catalog1: Seq<Track>,
    source2: Seq<Track>,
    catalog2: Seq<Track>,
)
    requires
        source1 == source2,
        catalog1 == catalog2,
    ensures
        spec_reconcile(source1, catalog1) == spec_reconcile(source2, catalog2),
{
}

/// Law: without a fallback resolver, every track that stayed unmatched is
/// absent from the output — no unresolved placeholder survives — and the
/// output length is the source length minus the number of unresolved
/// entries.
pub proof fn lemma_reconcile_drops_unmatched(source: Seq<Track>, catalog: Seq<Track>)
    ensures
        forall|t: Track|
            #[trigger] spec_reconcile(source, catalog).contains(t) ==> spec_is_resolved(t),
        forall|t: Track|
            !spec_is_resolved(t) ==> !#[trigger] spec_reconcile(source, catalog).contains(t),
        spec_reconcile(source, catalog).len() == source.len() - spec_pass1(
            source,
            catalog,
        ).filter(|t: Track| !spec_is_resolved(t)).len(),
{
    let resolved = |t: Track| spec_is_resolved(t);
    let pass1 = spec_pass1(source, catalog);
    let out = spec_reconcile(source, catalog);
    assert forall|t: Track| #[trigger] out.contains(t) implies spec_is_resolved(t) by {
        let i = choose|i: int| 0 <= i < out.len() && out[i] == t;
        pass1.lemma_filter_pred(resolved, i);
    }
    lemma_filter_split_len(pass1);
}

/// How the interactive fallback resolver's menu answer is read: entering the
/// line "i" (in either case) asks to supply a target identifier; an empty
/// line, "s", or anything else skips the track.
#[derive(Debug, Clone, Copy, PartialEq, Eq, Structural)]
pub enum ResolverChoice {
    Skip,
    EnterId,
}

/// The choice denoted by an input line, after uppercasing.
pub open spec fn spec_resolver_choice(input: Seq<char>) -> ResolverChoice {
    if upper_of(input) == seq!['I'] {
        ResolverChoice::EnterId
    } else {
        ResolverChoice::Skip
    }
}

/// Reads the fallback prompt's answer (the input line, without its trailing
/// newline) case-insensitively.
pub fn parse_resolver_choice(input: &str) -> (choice: ResolverChoice)
    ensures
        choice == spec_resolver_choice(input@),
{
    let upper = uppercase(input);
    let u = upper.as_str();
    if u.unicode_len() == 1 && u.get_char(0) == 'I' {
        proof {
            assert(upper_of(input@) =~= seq!['I']);
        }
        ResolverChoice::EnterId
    } else {
        proof {
            if upper_of(input@) == seq!['I'] {
                assert(upper@.len() == 1 && upper@[0] == 'I');
            }
        }
        ResolverChoice::Skip
    }
}

} // verus!
