use std::collections::HashSet;
use std::hash::Hash;
use vstd::prelude::*;
use vstd::std_specs::hash::obeys_key_model;
use crate::listing_layout::{listing_reads_overlong_length, reads_overlong_length};

verus! {

broadcast use {vstd::std_specs::hash::group_hash_axioms, vstd::seq_lib::group_seq_properties};

/// The elements of `s` in the order of their first occurrence, each once.
pub open spec fn unique_in_order<T>(s: Seq<T>) -> Seq<T>
    decreases s.len(),
{
    if s.len() == 0 {
        Seq::empty()
    } else {
        let rest = unique_in_order(s.drop_last());
        if rest.contains(s.last()) {
            rest
        } else {
            rest.push(s.last())
        }
    }
}

/// Deduplicating keeps exactly the values that occur: a value is in the result
/// if and only if it is in the input.
pub proof fn lemma_unique_same_elements<T>(s: Seq<T>, x: T)
    ensures
        unique_in_order(s).contains(x) <==> s.contains(x),
    decreases s.len(),
{
    if s.len() > 0 {
        lemma_unique_same_elements(s.drop_last(), x);
        assert(s == s.drop_last().push(s.last()));
        if x == s.last() {
            assert(s[s.len() - 1] == x);
        } else if s.contains(x) {
            let i: int = choose|i: int| 0 <= i < s.len() && s[i] == x;
            assert(s.drop_last()[i] == x);
        }
    }
}

/// No value occurs twice in the result of deduplicating, and the result is
/// never longer than the input.
pub proof fn lemma_unique_no_duplicates<T>(s: Seq<T>)
    ensures
        unique_in_order(s).no_duplicates(),
        unique_in_order(s).len() <= s.len(),
    decreases s.len(),
{
    if s.len() > 0 {
        lemma_unique_no_duplicates(s.drop_last());
        let rest = unique_in_order(s.drop_last());
        if !rest.contains(s.last()) {
            assert forall|i: int, j: int|
                0 <= i < rest.push(s.last()).len() && 0 <= j < rest.push(s.last()).len() && i != j
                implies rest.push(s.last())[i] != rest.push(s.last())[j] by {
                if i == rest.len() {
                    assert(rest[j] != s.last());
                } else if j == rest.len() {
                    assert(rest[i] != s.last());
                }
            }
        }
    }
}

/// A sequence in which no value repeats is left as it is.
pub proof fn lemma_unique_of_distinct<T>(s: Seq<T>)
    requires
        s.no_duplicates(),
    ensures
        unique_in_order(s) == s,
    decreases s.len(),
{
    if s.len() > 0 {
        let prefix = s.drop_last();
        assert(prefix.no_duplicates());
        lemma_unique_of_distinct(prefix);
        lemma_unique_same_elements(prefix, s.last());
        if prefix.contains(s.last()) {
            let i: int = choose|i: int| 0 <= i < prefix.len() && prefix[i] == s.last();
            assert(s[i] == s[s.len() - 1]);
        }
        assert(s == prefix.push(s.last()));
    }
}

/// Deduplicating a sequence with one more value at its end keeps what
/// deduplicating the sequence kept, and adds the value where it is new.
pub proof fn lemma_unique_push<T>(s: Seq<T>, x: T)
    ensures
        unique_in_order(s.push(x)) == if unique_in_order(s).contains(x) {
            unique_in_order(s)
        } else {
            unique_in_order(s).push(x)
        },
{
    assert(s.push(x).drop_last() =~= s);
}

/// Deduplicating twice gives what deduplicating once gives.
pub proof fn lemma_unique_idempotent<T>(s: Seq<T>)
    ensures
        unique_in_order(unique_in_order(s)) == unique_in_order(s),
{
    lemma_unique_no_duplicates(s);
    lemma_unique_of_distinct(unique_in_order(s));
}

/// Removes every element that already occurred earlier in `v`, keeping the
/// first occurrence of each value and the relative order of what stays.
/// `T`'s equality and hashing must agree with identity, as they do for the
/// integer types.
pub fn dedup<T: Eq + Hash + Copy>(v: &mut Vec<T>)
    requires
        obeys_key_model::<T>(),
    ensures
        final(v)@ == unique_in_order(old(v)@),
{
    let mut seen: HashSet<T> = HashSet::new();
    let mut kept: Vec<T> = Vec::new();
    let n: usize = v.len();
    for i in 0..n
        invariant
            n == v.len(),
            v@ == old(v)@,
            obeys_key_model::<T>(),
            kept@ == unique_in_order(v@.take(i as int)),
            seen@ == kept@.to_set(),
    {
        let x = v[i];
        assert(v@.take(i + 1).drop_last() == v@.take(i as int));
        if seen.insert(x) {
            kept.push(x);
            assert(kept@.to_set() == seen@);
        }
    }
    assert(v@.take(n as int) == v@);
    *v = kept;
}

} // verus!

verus! {

/// The two numbers of a beatmap that the program uses: the beatmap's own id
/// and the id of the set it belongs to.
#[derive(Debug, Clone, Copy, PartialEq, Eq)]
pub struct BeatmapIds {
    pub beatmap_id: i32,
    pub beatmapset_id: i32,
}

/// Why a beatmap listing (`osu!.db`) was not read.
#[derive(Debug, Clone, Copy, PartialEq, Eq)]
pub enum ListingError {
    /// The parser would reach a string length too long for its reader (see
    /// `listing_reads_overlong_length`); the listing is not parsed.
    OverlongLength,
    /// The parser refused the listing.
    Malformed,
}

/// The error that `osu_db` reports for a listing it cannot read, carried as
/// an opaque value.
#[verifier::external_type_specification]
#[verifier::external_body]
pub struct ExOsuDbError(osu_db::Error);

/// For the bytes of an `osu!.db` file, the `(beatmap_id, beatmapset_id)` of
/// each beatmap that `osu_db::Listing::from_bytes` reads from it, in file
/// order; `None` where it reports an error.
pub uninterp spec fn listing_beatmap_ids(db: Seq<u8>) -> Option<Seq<(i32, i32)>>;

/// The two ids of a beatmap as a pair, beatmap id first.
pub open spec fn ids_pair(b: BeatmapIds) -> (i32, i32) {
    (b.beatmap_id, b.beatmapset_id)
}

/// Parses an `osu!.db` file with `osu_db::Listing::from_bytes` and keeps the
/// two ids of each beatmap, in the order of the listing. The contract names
/// the result (`listing_beatmap_ids`) and claims only that it depends on the
/// bytes alone; it leaves the `osu!.db` format unsaid. The parser's only
/// panic, a string length with so many continuation bytes that its reader
/// shifts past the width of `usize`, is ruled out by the precondition, which
/// follows the parser's layout (`listing_reads_overlong_length`).
#[verifier::external_body]
fn parse_listing(db: &[u8]) -> (res: Result<Vec<BeatmapIds>, osu_db::Error>)
    requires
        !listing_reads_overlong_length(db@),
    ensures
        match res {
            Ok(v) => listing_beatmap_ids(db@) == Some(v@.map_values(|b: BeatmapIds| ids_pair(b))),
            Err(_) => listing_beatmap_ids(db@) is None,
        },
{
    match osu_db::Listing::from_bytes(db) {
        Ok(listing) => Ok(
            listing.beatmaps.iter().map(
                |b| BeatmapIds { beatmap_id: b.beatmap_id, beatmapset_id: b.beatmapset_id },
            ).collect(),
        ),
        Err(e) => Err(e),
    }
}

/// The set id of each beatmap, each set once, in order of first appearance.
pub fn beatmapset_ids(beatmaps: &Vec<BeatmapIds>) -> (ids: Vec<i32>)
    ensures
        ids@ == unique_in_order(beatmaps@.map_values(|b: BeatmapIds| b.beatmapset_id)),
{
    let mut ids: Vec<i32> = Vec::new();
    let n: usize = beatmaps.len();
    for i in 0..n
        invariant
            n == beatmaps.len(),
            ids@ == beatmaps@.take(i as int).map_values(|b: BeatmapIds| b.beatmapset_id),
    {
        ids.push(beatmaps[i].beatmapset_id);
        assert(beatmaps@.take(i + 1) == beatmaps@.take(i as int).push(beatmaps@[i as int]));
    }
    assert(beatmaps@.take(n as int) == beatmaps@);
    dedup(&mut ids);
    ids
}

/// The id of each beatmap, in listing order.
pub fn beatmap_ids(beatmaps: &Vec<BeatmapIds>) -> (ids: Vec<i32>)
    ensures
        ids@ == beatmaps@.map_values(|b: BeatmapIds| b.beatmap_id),
{
    let mut ids: Vec<i32> = Vec::new();
    let n: usize = beatmaps.len();
    for i in 0..n
        invariant
            n == beatmaps.len(),
            ids@ == beatmaps@.take(i as int).map_values(|b: BeatmapIds| b.beatmap_id),
    {
        ids.push(beatmaps[i].beatmap_id);
        assert(beatmaps@.take(i + 1) == beatmaps@.take(i as int).push(beatmaps@[i as int]));
    }
    assert(beatmaps@.take(n as int) == beatmaps@);
    ids
}

/// The set ids of the beatmaps in an `osu!.db` file, each set once, in order of
/// first appearance; an error where the listing cannot be read, or where the
/// parser would reach a string length too long for its reader.
pub fn get_all_beatmapset_ids(db: &[u8]) -> (res: Result<Vec<i32>, ListingError>)
    ensures
        listing_reads_overlong_length(db@) ==> res == Err::<Vec<i32>, ListingError>(
            ListingError::OverlongLength,
        ),
        !listing_reads_overlong_length(db@) ==> match listing_beatmap_ids(db@) {
            Some(pairs) => res matches Ok(ids) && ids@ == unique_in_order(
                pairs.map_values(|p: (i32, i32)| p.1),
            ),
            None => res == Err::<Vec<i32>, ListingError>(ListingError::Malformed),
        },
{
    if reads_overlong_length(db) {
        return Err(ListingError::OverlongLength);
    }
    match parse_listing(db) {
        Ok(beatmaps) => {
            let ids = beatmapset_ids(&beatmaps);
            assert(beatmaps@.map_values(|b: BeatmapIds| b.beatmapset_id) == beatmaps@.map_values(
                |b: BeatmapIds| ids_pair(b),
            ).map_values(|p: (i32, i32)| p.1));
            Ok(ids)
        },
        Err(_) => Err(ListingError::Malformed),
    }
}

/// The ids of the beatmaps in an `osu!.db` file, in listing order; an error
/// where the listing cannot be read, or where the parser would reach a string
/// length too long for its reader.
pub fn get_all_beatmap_ids(db: &[u8]) -> (res: Result<Vec<i32>, ListingError>)
    ensures
        listing_reads_overlong_length(db@) ==> res == Err::<Vec<i32>, ListingError>(
            ListingError::OverlongLength,
        ),
        !listing_reads_overlong_length(db@) ==> match listing_beatmap_ids(db@) {
            Some(pairs) => res matches Ok(ids) && ids@ == pairs.map_values(
                |p: (i32, i32)| p.0,
            ),
            None => res == Err::<Vec<i32>, ListingError>(ListingError::Malformed),
        },
{
    if reads_overlong_length(db) {
        return Err(ListingError::OverlongLength);
    }
    match parse_listing(db) {
        Ok(beatmaps) => {
            let ids = beatmap_ids(&beatmaps);
            assert(beatmaps@.map_values(|b: BeatmapIds| b.beatmap_id) == beatmaps@.map_values(
                |b: BeatmapIds| ids_pair(b),
            ).map_values(|p: (i32, i32)| p.0));
            Ok(ids)
        },
        Err(_) => Err(ListingError::Malformed),
    }
}

} // verus!
