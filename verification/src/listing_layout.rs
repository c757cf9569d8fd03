use vstd::prelude::*;

verus! {

/// How far a walk over the layout of an `osu!.db` listing got: to a byte
/// position, to a string length too long for the parser's reader, or to a
/// place where the parser gives up (too few bytes, or no string marker where
/// a string belongs).
#[derive(Debug, Clone, Copy, PartialEq, Eq, Structural)]
pub enum Scan {
    At(usize),
    Overlong,
    Stop,
}

/// The listing versions from which difficulty values are floats and star
/// ratings are stored (earlier: bytes, and no ratings).
pub const FLOAT_DIFFICULTY_VERSION: u32 = 20140609;

/// The listing version from which beatmaps are no longer prefixed by their size.
pub const UNSIZED_BEATMAP_VERSION: u32 = 20191106;

/// How many continuation bytes in a row make the ULEB128 reader shift a
/// `usize` by its width or more: ten where `usize` has 64 bits, five where it
/// has 32.
pub open spec fn overlong_run() -> int {
    if usize::BITS == 64 {
        10
    } else {
        5
    }
}

/// The number of bytes with the high bit set in a row from `q`.
pub open spec fn high_run(db: Seq<u8>, q: int) -> int
    decreases db.len() - q,
{
    if 0 <= q < db.len() && db[q] >= 0x80 {
        1 + high_run(db, q + 1)
    } else {
        0
    }
}

/// The number that a ULEB128 with the `k` continuation bytes from `q` and its
/// final byte after them encodes.
pub open spec fn uleb_value(db: Seq<u8>, q: int, k: nat) -> int
    decreases k,
{
    if k == 0 {
        db[q] as int
    } else {
        (db[q] - 128) + 128 * uleb_value(db, q + 1, (k - 1) as nat)
    }
}

/// Reading an optional string at `p`: a `0x00` marker for none, or `0x0b`, a
/// ULEB128 length and that many bytes. The length is the encoded number cut
/// to the width of `usize`, as the reader's shifts leave it.
pub open spec fn string_scan(db: Seq<u8>, p: int) -> Scan {
    if p < 0 || p >= db.len() {
        Scan::Stop
    } else if db[p] == 0 {
        Scan::At((p + 1) as usize)
    } else if db[p] == 0x0b {
        let q = p + 1;
        let k = high_run(db, q);
        if q + k >= db.len() {
            Scan::Stop
        } else if k >= overlong_run() {
            Scan::Overlong
        } else {
            let end = q + k + 1 + uleb_value(db, q, k as nat) % (usize::MAX + 1);
            if end > db.len() {
                Scan::Stop
            } else {
                Scan::At(end as usize)
            }
        }
    } else {
        Scan::Stop
    }
}

/// Reading a string after what was read so far.
pub open spec fn then_string(db: Seq<u8>, s: Scan) -> Scan {
    match s {
        Scan::At(p) => string_scan(db, p as int),
        other => other,
    }
}

/// Reading `n` bytes of fixed-size fields after what was read so far.
pub open spec fn then_skip(db: Seq<u8>, s: Scan, n: int) -> Scan {
    match s {
        Scan::At(p) => if p + n > db.len() {
            Scan::Stop
        } else {
            Scan::At((p + n) as usize)
        },
        other => other,
    }
}

/// The little-endian `u32` at `p`.
pub open spec fn u32_at(db: Seq<u8>, p: int) -> int {
    db[p] + 256 * db[p + 1] + 65536 * db[p + 2] + 16777216 * db[p + 3]
}

/// Reading a count and that many records of `size` bytes after what was read
/// so far.
pub open spec fn then_list(db: Seq<u8>, s: Scan, size: int) -> Scan {
    match s {
        Scan::At(p) => if p + 4 > db.len() {
            Scan::Stop
        } else if p + 4 + size * u32_at(db, p as int) > db.len() {
            Scan::Stop
        } else {
            Scan::At((p + 4 + size * u32_at(db, p as int)) as usize)
        },
        other => other,
    }
}

/// Reading `n` strings in a row after what was read so far.
pub open spec fn then_strings(db: Seq<u8>, s: Scan, n: nat) -> Scan
    decreases n,
{
    if n == 0 {
        s
    } else {
        then_strings(db, then_string(db, s), (n - 1) as nat)
    }
}

/// Reading the four star-rating lists (count, then records of a tag, a mods
/// `u32`, a tag and a double) of listings that have them.
pub open spec fn then_star_ratings(db: Seq<u8>, s: Scan, version: u32) -> Scan {
    if version >= FLOAT_DIFFICULTY_VERSION {
        then_list(db, then_list(db, then_list(db, then_list(db, s, 14), 14), 14), 14)
    } else {
        s
    }
}

/// Reading one beatmap record, in the order of osu-db's `beatmap`.
pub open spec fn beatmap_scan(db: Seq<u8>, s: Scan, version: u32) -> Scan {
    let s0 = then_skip(db, s, if version < UNSIZED_BEATMAP_VERSION { 4 } else { 0 });
    // artist, artist (unicode), title, title (unicode), creator,
    // difficulty, audio file, hash, .osu file
    let s1 = then_strings(db, s0, 9);
    // status, three object counts, last modification
    let s2 = then_skip(db, s1, 15);
    // four difficulty values, slider velocity
    let s3 = then_skip(db, s2, if version >= FLOAT_DIFFICULTY_VERSION { 24 } else { 12 });
    let s4 = then_star_ratings(db, s3, version);
    // drain, total and preview time
    let s5 = then_skip(db, s4, 12);
    // timing points: two doubles and a flag each
    let s6 = then_list(db, s5, 17);
    // beatmap, set and thread id, four grades, offset, stack leniency, mode
    let s7 = then_skip(db, s6, 23);
    // song source, tags
    let s8 = then_strings(db, s7, 2);
    // online offset
    let s9 = then_skip(db, s8, 2);
    // title font
    let s10 = then_string(db, s9);
    // unplayed, last played, osz2
    let s11 = then_skip(db, s10, 10);
    // folder name
    let s12 = then_string(db, s11);
    // last online check, five flags, the old short, last modification, scroll speed
    then_skip(db, s12, if version < FLOAT_DIFFICULTY_VERSION { 20 } else { 18 })
}

/// Reading `n` beatmap records in a row.
pub open spec fn beatmaps_scan(db: Seq<u8>, s: Scan, version: u32, n: nat) -> Scan
    decreases n,
{
    if n == 0 {
        s
    } else {
        match beatmap_scan(db, s, version) {
            Scan::At(p) => beatmaps_scan(db, Scan::At(p), version, (n - 1) as nat),
            other => other,
        }
    }
}

/// Walking the whole listing, in the order of osu-db's `listing`: version,
/// folder count, lock flag and date, player name, the beatmaps (after their
/// count), and the trailing permissions, which hold no string.
pub open spec fn listing_scan(db: Seq<u8>) -> Scan {
    if db.len() < 4 {
        Scan::Stop
    } else {
        let version = u32_at(db, 0) as u32;
        let s = then_string(db, then_skip(db, Scan::At(0), 17));
        match s {
            Scan::At(p) => if p + 4 > db.len() {
                Scan::Stop
            } else {
                beatmaps_scan(db, Scan::At((p + 4) as usize), version, u32_at(db, p as int) as nat)
            },
            other => other,
        }
    }
}

/// Whether osu-db's listing parser, following the layout, reaches a string
/// length whose reader would shift past the width of `usize`. Where it fails
/// a check of a field's content (an enum byte, a tag, UTF-8), the parser
/// stops, while this walk goes on: the walk reaches every such length that
/// the parser reaches, and on a listing the parser reads in full the two
/// follow the same path.
pub open spec fn listing_reads_overlong_length(db: Seq<u8>) -> bool {
    listing_scan(db) is Overlong
}

/// `128` to the power `n`.
pub open spec fn pow128(n: nat) -> int
    decreases n,
{
    if n == 0 {
        1
    } else {
        128 * pow128((n - 1) as nat)
    }
}

proof fn lemma_pow128_bound(n: nat)
    requires
        n <= 10,
    ensures
        1 <= pow128(n) <= pow128(10),
        pow128(10) == 0x400000000000000000,
    decreases 10 - n,
{
    reveal_with_fuel(pow128, 11);
    if n < 10 {
        lemma_pow128_bound(n + 1);
    }
}

/// Every byte of a run of high bytes has its high bit set.
proof fn lemma_high_run_bytes(db: Seq<u8>, q: int, i: int)
    requires
        0 <= q,
        0 <= i < high_run(db, q),
    ensures
        q + i < db.len(),
        db[q + i] >= 0x80,
    decreases i,
{
    if i > 0 {
        lemma_high_run_bytes(db, q + 1, i - 1);
    }
}

/// A run of high bytes ends at a byte without the high bit, or at the end.
proof fn lemma_high_run_end(db: Seq<u8>, q: int)
    requires
        0 <= q <= db.len(),
    ensures
        q + high_run(db, q) <= db.len(),
        q + high_run(db, q) < db.len() ==> db[q + high_run(db, q)] < 0x80,
    decreases db.len() - q,
{
    if q < db.len() && db[q] >= 0x80 {
        lemma_high_run_end(db, q + 1);
    }
}

/// The number of high bytes in a row from `q`.
fn high_run_at(db: &[u8], q: usize) -> (k: usize)
    requires
        q <= db@.len(),
    ensures
        k == high_run(db@, q as int),
        q + k <= db@.len(),
{
    let mut i: usize = q;
    while i < db.len() && db[i] >= 0x80
        invariant
            q <= i <= db@.len(),
            high_run(db@, q as int) == (i - q) + high_run(db@, i as int),
        decreases db@.len() - i,
    {
        i = i + 1;
    }
    i - q
}

/// The number that a ULEB128 with `k` continuation bytes from `q` encodes.
fn uleb_value_at(db: &[u8], q: usize, k: usize) -> (v: u128)
    requires
        k < 10,
        q + k < db@.len(),
        k == high_run(db@, q as int),
    ensures
        v == uleb_value(db@, q as int, k as nat),
{
    let n: usize = db.len();
    proof {
        lemma_high_run_end(db@, q as int);
    }
    let mut acc: u128 = db[q + k] as u128;
    let mut j: usize = k;
    proof {
        lemma_pow128_bound(1);
        reveal_with_fuel(pow128, 2);
    }
    while j > 0
        invariant
            k < 10,
            n == db@.len(),
            q + k < n,
            k == high_run(db@, q as int),
            j <= k,
            acc == uleb_value(db@, (q + j) as int, (k - j) as nat),
            acc < pow128((k - j + 1) as nat),
        decreases j,
    {
        j = j - 1;
        proof {
            lemma_high_run_bytes(db@, q as int, j as int);
            lemma_pow128_bound((k - j) as nat);
            lemma_pow128_bound((k - j + 1) as nat);
        }
        let c: u8 = db[q + j] - 128;
        acc = acc * 128 + c as u128;
    }
    acc
}

/// Reading an optional string at `p`.
fn string_at(db: &[u8], p: usize) -> (s: Scan)
    ensures
        s == string_scan(db@, p as int),
{
    if p >= db.len() {
        return Scan::Stop;
    }
    if db[p] == 0 {
        return Scan::At(p + 1);
    }
    if db[p] != 0x0b {
        return Scan::Stop;
    }
    let q: usize = p + 1;
    let k: usize = high_run_at(db, q);
    if q + k >= db.len() {
        return Scan::Stop;
    }
    let run: usize = if usize::BITS == 64 {
        10
    } else {
        5
    };
    if k >= run {
        return Scan::Overlong;
    }
    let v: u128 = uleb_value_at(db, q, k);
    let modulus: u128 = (usize::MAX as u128) + 1;
    let len: u128 = v % modulus;
    let rest: usize = db.len() - (q + k + 1);
    if len > rest as u128 {
        Scan::Stop
    } else {
        Scan::At(q + k + 1 + len as usize)
    }
}

fn next_string(db: &[u8], s: Scan) -> (t: Scan)
    ensures
        t == then_string(db@, s),
{
    match s {
        Scan::At(p) => string_at(db, p),
        other => other,
    }
}

fn next_strings(db: &[u8], s: Scan, n: usize) -> (t: Scan)
    ensures
        t == then_strings(db@, s, n as nat),
{
    let mut cur: Scan = s;
    let mut i: usize = 0;
    while i < n
        invariant
            i <= n,
            then_strings(db@, s, n as nat) == then_strings(db@, cur, (n - i) as nat),
        decreases n - i,
    {
        cur = next_string(db, cur);
        i = i + 1;
    }
    cur
}

fn skip(db: &[u8], s: Scan, n: usize) -> (t: Scan)
    ensures
        t == then_skip(db@, s, n as int),
{
    match s {
        Scan::At(p) => if n > db.len() || p > db.len() - n {
            Scan::Stop
        } else {
            Scan::At(p + n)
        },
        other => other,
    }
}

/// The little-endian `u32` at `p`.
fn u32_at_exec(db: &[u8], p: usize) -> (v: u64)
    requires
        p + 4 <= db@.len(),
    ensures
        v == u32_at(db@, p as int),
{
    db[p] as u64 + 256 * (db[p + 1] as u64) + 65536 * (db[p + 2] as u64) + 16777216 * (db[p
        + 3] as u64)
}

fn list(db: &[u8], s: Scan, size: u64) -> (t: Scan)
    requires
        size <= 17,
    ensures
        t == then_list(db@, s, size as int),
{
    match s {
        Scan::At(p) => {
            if p > db.len() || db.len() - p < 4 {
                return Scan::Stop;
            }
            let count: u64 = u32_at_exec(db, p);
            assert(size * count <= 17 * 0xffff_ffff) by (nonlinear_arith)
                requires
                    size <= 17,
                    count <= 0xffff_ffff,
            ;
            let bytes: u64 = size * count;
            if bytes > (db.len() - p - 4) as u64 {
                Scan::Stop
            } else {
                Scan::At(p + 4 + bytes as usize)
            }
        },
        other => other,
    }
}

fn beatmap(db: &[u8], s: Scan, version: u32) -> (t: Scan)
    ensures
        t == beatmap_scan(db@, s, version),
{
    let s0 = skip(db, s, if version < UNSIZED_BEATMAP_VERSION { 4 } else { 0 });
    let s1 = next_strings(db, s0, 9);
    let s2 = skip(db, s1, 15);
    let s3 = skip(db, s2, if version >= FLOAT_DIFFICULTY_VERSION { 24 } else { 12 });
    let s4 = if version >= FLOAT_DIFFICULTY_VERSION {
        list(db, list(db, list(db, list(db, s3, 14), 14), 14), 14)
    } else {
        s3
    };
    let s5 = skip(db, s4, 12);
    let s6 = list(db, s5, 17);
    let s7 = skip(db, s6, 23);
    let s8 = next_strings(db, s7, 2);
    let s9 = skip(db, s8, 2);
    let s10 = next_string(db, s9);
    let s11 = skip(db, s10, 10);
    let s12 = next_string(db, s11);
    skip(db, s12, if version < FLOAT_DIFFICULTY_VERSION { 20 } else { 18 })
}

/// Walks the layout of an `osu!.db` listing as osu-db's parser reads it.
pub fn scan_listing(db: &[u8]) -> (s: Scan)
    ensures
        s == listing_scan(db@),
{
    if db.len() < 4 {
        return Scan::Stop;
    }
    let version: u32 = u32_at_exec(db, 0) as u32;
    let head = next_string(db, skip(db, Scan::At(0), 17));
    let p: usize = match head {
        Scan::At(p) => p,
        other => return other,
    };
    if p > db.len() || db.len() - p < 4 {
        return Scan::Stop;
    }
    let n: u64 = u32_at_exec(db, p);
    let ghost total = n as nat;
    let mut cur: Scan = Scan::At(p + 4);
    let mut left: u64 = n;
    while left > 0
        invariant
            version == u32_at(db@, 0) as u32,
            listing_scan(db@) == beatmaps_scan(db@, cur, version, left as nat),
            cur is At,
        decreases left,
    {
        match beatmap(db, cur, version) {
            Scan::At(q) => {
                cur = Scan::At(q);
                left = left - 1;
            },
            other => {
                return other;
            },
        }
    }
    cur
}

/// Whether osu-db's listing parser would reach a string length too long for
/// its reader in `db`.
pub fn reads_overlong_length(db: &[u8]) -> (found: bool)
    ensures
        found == listing_reads_overlong_length(db@),
{
    match scan_listing(db) {
        Scan::Overlong => true,
        _ => false,
    }
}

/// A string marker followed by `overlong_run()` bytes with the high bit set
/// and at least one byte more stands at `p`.
pub open spec fn overlong_length_at(db: Seq<u8>, p: int) -> bool {
    &&& 0 <= p
    &&& p + overlong_run() + 1 < db.len()
    &&& db[p] == 0x0b
    &&& forall|i: int| 1 <= i <= overlong_run() ==> #[trigger] db[p + i] >= 0x80
}

/// Reading a string refuses its length only where the marker is followed by
/// at least `overlong_run()` continuation bytes and then a final byte; a
/// length with fewer continuation bytes, in particular a single byte below
/// `0x80`, is read: a marker then `0x00` is the empty string, two bytes long.
pub proof fn lemma_string_scan_refuses_only_long_lengths(db: Seq<u8>, p: int)
    ensures
        string_scan(db, p) is Overlong ==> overlong_length_at(db, p),
        0 <= p && p + 1 < db.len() && db[p] == 0x0b && db[p + 1] < 0x80 ==> string_scan(db, p)
            !is Overlong,
        0 <= p && p + 1 < db.len() && db[p] == 0x0b && db[p + 1] == 0 ==> string_scan(db, p)
            == Scan::At((p + 2) as usize),
{
    if 0 <= p < db.len() && db[p] == 0x0b {
        let q = p + 1;
        lemma_high_run_end(db, q);
        if string_scan(db, p) is Overlong {
            assert forall|i: int| 1 <= i <= overlong_run() implies #[trigger] db[p + i] >= 0x80 by {
                lemma_high_run_bytes(db, q, i - 1);
            }
            assert(q + high_run(db, q) < db.len());
        }
        if q < db.len() && db[q] < 0x80 {
            assert(high_run(db, q) == 0);
            assert(uleb_value(db, q, 0) == db[q] as int);
            if db[q] == 0 {
                assert(0int % (usize::MAX + 1) == 0) by (nonlinear_arith);
                assert(uleb_value(db, q, 0) % (usize::MAX + 1) == 0);
            }
        }
    }
}

/// Whether reading a string at some position refuses its length.
pub open spec fn some_string_overlong(db: Seq<u8>) -> bool {
    exists|p: int| #[trigger] string_scan(db, p) is Overlong
}

proof fn lemma_then_string_overlong(db: Seq<u8>, s: Scan)
    ensures
        then_string(db, s) is Overlong ==> s is Overlong || some_string_overlong(db),
{
    if let Scan::At(p) = s {
        if string_scan(db, p as int) is Overlong {
            assert(string_scan(db, p as int) is Overlong);
        }
    }
}

proof fn lemma_then_strings_overlong(db: Seq<u8>, s: Scan, n: nat)
    ensures
        then_strings(db, s, n) is Overlong ==> s is Overlong || some_string_overlong(db),
    decreases n,
{
    if n > 0 {
        lemma_then_string_overlong(db, s);
        lemma_then_strings_overlong(db, then_string(db, s), (n - 1) as nat);
    }
}

proof fn lemma_beatmap_overlong(db: Seq<u8>, s: Scan, version: u32)
    ensures
        beatmap_scan(db, s, version) is Overlong ==> s is Overlong || some_string_overlong(db),
{
    let s0 = then_skip(db, s, if version < UNSIZED_BEATMAP_VERSION { 4 } else { 0 });
    let s1 = then_strings(db, s0, 9);
    lemma_then_strings_overlong(db, s0, 9);
    let s2 = then_skip(db, s1, 15);
    let s3 = then_skip(db, s2, if version >= FLOAT_DIFFICULTY_VERSION { 24 } else { 12 });
    let s4 = then_star_ratings(db, s3, version);
    let s5 = then_skip(db, s4, 12);
    let s6 = then_list(db, s5, 17);
    let s7 = then_skip(db, s6, 23);
    let s8 = then_strings(db, s7, 2);
    lemma_then_strings_overlong(db, s7, 2);
    let s9 = then_skip(db, s8, 2);
    let s10 = then_string(db, s9);
    lemma_then_string_overlong(db, s9);
    let s11 = then_skip(db, s10, 10);
    let s12 = then_string(db, s11);
    lemma_then_string_overlong(db, s11);
}

proof fn lemma_beatmaps_overlong(db: Seq<u8>, s: Scan, version: u32, n: nat)
    ensures
        beatmaps_scan(db, s, version, n) is Overlong ==> s is Overlong || some_string_overlong(db),
    decreases n,
{
    if n > 0 {
        lemma_beatmap_overlong(db, s, version);
        if let Scan::At(p) = beatmap_scan(db, s, version) {
            lemma_beatmaps_overlong(db, Scan::At(p), version, (n - 1) as nat);
        }
    }
}

/// A listing is refused only where, at a place the walk reads a string, the
/// string marker is followed by at least `overlong_run()` continuation bytes
/// and a final byte: the length that osu-db's reader cannot hold.
pub proof fn lemma_listing_refused_only_for_long_lengths(db: Seq<u8>)
    ensures
        listing_reads_overlong_length(db) ==> exists|p: int| overlong_length_at(db, p),
{
    if db.len() >= 4 {
        let version = u32_at(db, 0) as u32;
        let s0 = then_skip(db, Scan::At(0), 17);
        lemma_then_string_overlong(db, s0);
        let s = then_string(db, s0);
        if let Scan::At(p) = s {
            if p + 4 <= db.len() {
                lemma_beatmaps_overlong(
                    db,
                    Scan::At((p + 4) as usize),
                    version,
                    u32_at(db, p as int) as nat,
                );
            }
        }
    }
    if listing_reads_overlong_length(db) {
        assert(some_string_overlong(db));
        let p = choose|p: int| #[trigger] string_scan(db, p) is Overlong;
        lemma_string_scan_refuses_only_long_lengths(db, p);
    }
}

} // verus!
