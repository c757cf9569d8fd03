use osu_directer::utils::{
    beatmap_ids, beatmapset_ids, dedup, get_all_beatmap_ids, get_all_beatmapset_ids,
    BeatmapIds, ListingError,
};
use osu_directer::listing_layout::{reads_overlong_length, scan_listing, Scan};

#[test]
fn dedup_keeps_first_occurrences_in_order() {
    let mut v = vec![3, 1, 3, 2, 1, 4, 2];
    dedup(&mut v);
    assert_eq!(v, vec![3, 1, 2, 4]);
}

#[test]
fn dedup_of_empty_is_empty() {
    let mut v: Vec<i32> = Vec::new();
    dedup(&mut v);
    assert!(v.is_empty());
}

#[test]
fn dedup_leaves_distinct_values_alone() {
    let mut v = vec![5u64, 4, 9, 1];
    dedup(&mut v);
    assert_eq!(v, vec![5, 4, 9, 1]);
}

#[test]
fn dedup_twice_is_dedup_once() {
    let mut v = vec![1, 1, 2, 1, 3, 3];
    dedup(&mut v);
    let once = v.clone();
    dedup(&mut v);
    assert_eq!(v, once);
}

#[test]
fn dedup_of_all_equal_keeps_one() {
    let mut v = vec![-7i32; 5];
    dedup(&mut v);
    assert_eq!(v, vec![-7]);
}

fn ids(beatmap_id: i32, beatmapset_id: i32) -> BeatmapIds {
    BeatmapIds { beatmap_id, beatmapset_id }
}

#[test]
fn set_ids_are_listed_once() {
    let maps = vec![ids(10, 1), ids(11, 1), ids(20, 2), ids(12, 1), ids(30, 3)];
    assert_eq!(beatmapset_ids(&maps), vec![1, 2, 3]);
}

#[test]
fn beatmap_ids_keep_listing_order() {
    let maps = vec![ids(10, 1), ids(11, 1), ids(20, 2)];
    assert_eq!(beatmap_ids(&maps), vec![10, 11, 20]);
}

fn push_u32(out: &mut Vec<u8>, v: u32) {
    out.extend_from_slice(&v.to_le_bytes());
}

/// One beatmap record of an `osu!.db` of a recent version, every string absent.
fn beatmap_record(beatmap_id: i32, beatmapset_id: i32) -> Vec<u8> {
    let mut b = Vec::new();
    b.extend_from_slice(&[0u8; 9]); // nine absent strings
    b.push(4); // ranked
    b.extend_from_slice(&[0u8; 6]); // object counts
    b.extend_from_slice(&[0u8; 8]); // last modified
    for _ in 0..4 {
        b.extend_from_slice(&5.0f32.to_le_bytes()); // AR, CS, HP, OD
    }
    b.extend_from_slice(&1.4f64.to_le_bytes()); // slider velocity
    for _ in 0..4 {
        push_u32(&mut b, 0); // no star ratings
    }
    push_u32(&mut b, 60); // drain time
    push_u32(&mut b, 61000); // total time
    push_u32(&mut b, 1000); // preview time
    push_u32(&mut b, 0); // no timing points
    b.extend_from_slice(&beatmap_id.to_le_bytes());
    b.extend_from_slice(&beatmapset_id.to_le_bytes());
    push_u32(&mut b, 0); // thread id
    b.extend_from_slice(&[9, 9, 9, 9]); // unplayed grades
    b.extend_from_slice(&[0, 0]); // local offset
    b.extend_from_slice(&0.7f32.to_le_bytes()); // stack leniency
    b.push(0); // standard mode
    b.extend_from_slice(&[0, 0]); // song source, tags
    b.extend_from_slice(&[0, 0]); // online offset
    b.push(0); // title font
    b.push(1); // unplayed
    b.extend_from_slice(&[0u8; 8]); // last played
    b.push(0); // not osz2
    b.push(0); // folder name
    b.extend_from_slice(&[0u8; 8]); // last online check
    b.extend_from_slice(&[0u8; 5]); // five flags
    push_u32(&mut b, 0); // last modification
    b.push(0); // mania scroll speed
    b
}

fn listing(maps: &[(i32, i32)]) -> Vec<u8> {
    let mut db = Vec::new();
    push_u32(&mut db, 20210101); // version
    push_u32(&mut db, 3); // folder count
    db.push(1); // account unlocked
    db.extend_from_slice(&[0u8; 8]); // unlock date
    db.push(0); // no player name
    push_u32(&mut db, maps.len() as u32);
    for (m, s) in maps {
        db.extend(beatmap_record(*m, *s));
    }
    push_u32(&mut db, 1); // user permissions
    db
}

#[test]
fn listing_set_ids() {
    let db = listing(&[(100, 7), (101, 7), (200, 9), (102, 7)]);
    assert_eq!(get_all_beatmapset_ids(&db), Ok(vec![7, 9]));
}

#[test]
fn listing_beatmap_ids() {
    let db = listing(&[(100, 7), (101, 7), (200, 9), (102, 7)]);
    assert_eq!(get_all_beatmap_ids(&db), Ok(vec![100, 101, 200, 102]));
}

#[test]
fn empty_listing_has_no_ids() {
    let db = listing(&[]);
    assert_eq!(get_all_beatmapset_ids(&db), Ok(vec![]));
    assert_eq!(get_all_beatmap_ids(&db), Ok(vec![]));
}

#[test]
fn truncated_listing_is_refused() {
    let mut db = listing(&[(100, 7)]);
    db.truncate(db.len() - 10);
    assert_eq!(get_all_beatmapset_ids(&db), Err(ListingError::Malformed));
    assert_eq!(get_all_beatmap_ids(&db), Err(ListingError::Malformed));
}

/// A listing whose player name has a string length of ten continuation bytes.
fn listing_with_overlong_name() -> Vec<u8> {
    let mut db = Vec::new();
    push_u32(&mut db, 20210101);
    push_u32(&mut db, 0);
    db.push(1);
    db.extend_from_slice(&[0u8; 8]);
    db.push(0x0b);
    db.extend_from_slice(&[0x80u8; 10]);
    db.push(0);
    push_u32(&mut db, 0);
    push_u32(&mut db, 0);
    db
}

#[test]
fn overlong_string_length_is_refused() {
    let db = listing_with_overlong_name();
    assert!(reads_overlong_length(&db));
    assert_eq!(get_all_beatmapset_ids(&db), Err(ListingError::OverlongLength));
    assert_eq!(get_all_beatmap_ids(&db), Err(ListingError::OverlongLength));
}

fn push_string(out: &mut Vec<u8>, s: Option<&str>) {
    match s {
        None => out.push(0),
        Some(s) => {
            out.push(0x0b);
            let mut len = s.len();
            loop {
                let mut byte = (len & 0x7f) as u8;
                len >>= 7;
                if len != 0 {
                    byte |= 0x80;
                }
                out.push(byte);
                if len == 0 {
                    break;
                }
            }
            out.extend_from_slice(s.as_bytes());
        }
    }
}

/// A beatmap record of any listing version, with the given strings and list lengths.
fn record(version: u32, beatmap_id: i32, beatmapset_id: i32, text: Option<&str>, stars: u32, timing: u32) -> Vec<u8> {
    let mut b = Vec::new();
    for _ in 0..9 {
        push_string(&mut b, text);
    }
    b.push(4);
    b.extend_from_slice(&[0u8; 6]);
    b.extend_from_slice(&[0u8; 8]);
    if version >= 20140609 {
        for _ in 0..4 {
            b.extend_from_slice(&5.0f32.to_le_bytes());
        }
    } else {
        b.extend_from_slice(&[5u8; 4]);
    }
    b.extend_from_slice(&1.4f64.to_le_bytes());
    if version >= 20140609 {
        for _ in 0..4 {
            push_u32(&mut b, stars);
            for m in 0..stars {
                b.push(0x08);
                push_u32(&mut b, m);
                b.push(0x0d);
                b.extend_from_slice(&4.5f64.to_le_bytes());
            }
        }
    }
    for _ in 0..3 {
        push_u32(&mut b, 1000);
    }
    push_u32(&mut b, timing);
    for _ in 0..timing {
        b.extend_from_slice(&300.0f64.to_le_bytes());
        b.extend_from_slice(&0.0f64.to_le_bytes());
        b.push(1);
    }
    b.extend_from_slice(&beatmap_id.to_le_bytes());
    b.extend_from_slice(&beatmapset_id.to_le_bytes());
    push_u32(&mut b, 0);
    b.extend_from_slice(&[9, 9, 9, 9]);
    b.extend_from_slice(&[0, 0]);
    b.extend_from_slice(&0.7f32.to_le_bytes());
    b.push(0);
    push_string(&mut b, text);
    push_string(&mut b, text);
    b.extend_from_slice(&[0, 0]);
    push_string(&mut b, text);
    b.push(1);
    b.extend_from_slice(&[0u8; 8]);
    b.push(0);
    push_string(&mut b, text);
    b.extend_from_slice(&[0u8; 8]);
    b.extend_from_slice(&[0u8; 5]);
    if version < 20140609 {
        b.extend_from_slice(&[0, 0]);
    }
    push_u32(&mut b, 0);
    b.push(0);
    if version < 20191106 {
        let mut sized = Vec::new();
        push_u32(&mut sized, b.len() as u32);
        sized.extend(b);
        sized
    } else {
        b
    }
}

fn full_listing(version: u32, player: Option<&str>, maps: &[(i32, i32)], text: Option<&str>, stars: u32, timing: u32) -> Vec<u8> {
    let mut db = Vec::new();
    push_u32(&mut db, version);
    push_u32(&mut db, 3);
    db.push(1);
    db.extend_from_slice(&[0u8; 8]);
    push_string(&mut db, player);
    push_u32(&mut db, maps.len() as u32);
    for (m, s) in maps {
        db.extend(record(version, *m, *s, text, stars, timing));
    }
    push_u32(&mut db, 1);
    db
}

#[test]
fn cyrillic_eleven_byte_name_is_read() {
    // "ПРИВЕТ"-like: five Cyrillic letters and '!' make 11 bytes, length byte 0x0b.
    let name = "\u{41f}\u{420}\u{418}\u{412}\u{415}!";
    assert_eq!(name.len(), 11);
    let db = full_listing(20210101, Some(name), &[(5, 6), (7, 6)], Some(name), 1, 2);
    assert!(!reads_overlong_length(&db));
    assert_eq!(scan_listing(&db), Scan::At(db.len() - 4));
    assert_eq!(get_all_beatmapset_ids(&db), Ok(vec![6]));
    assert_eq!(get_all_beatmap_ids(&db), Ok(vec![5, 7]));
}

#[test]
fn walk_follows_every_version_layout() {
    for version in [20130101u32, 20150203, 20191106, 20230101] {
        for text in [None, Some("x"), Some("a much longer title than one byte holds at all, more than 127 bytes long so that its length takes two bytes of the ULEB128 encoding, yes")] {
            for (stars, timing) in [(0, 0), (2, 3)] {
                let db = full_listing(version, text, &[(1, 10), (2, 20), (3, 10)], text, stars, timing);
                assert_eq!(scan_listing(&db), Scan::At(db.len() - 4), "{} {:?}", version, text);
                assert_eq!(get_all_beatmapset_ids(&db), Ok(vec![10, 20]));
                assert_eq!(get_all_beatmap_ids(&db), Ok(vec![1, 2, 3]));
            }
        }
    }
}

#[test]
fn overlong_title_in_a_beatmap_is_refused() {
    let mut db = full_listing(20210101, None, &[(1, 2)], None, 0, 0);
    // The first string of the first beatmap starts right after the count.
    let at = 4 + 4 + 1 + 8 + 1 + 4;
    let mut overlong = vec![0x0b];
    overlong.extend_from_slice(&[0x80u8; 10]);
    overlong.push(0);
    db.splice(at..at + 1, overlong);
    assert!(reads_overlong_length(&db));
    assert_eq!(get_all_beatmap_ids(&db), Err(ListingError::OverlongLength));
}

#[test]
fn high_bytes_outside_a_string_length_are_harmless() {
    // The last byte of the first beatmap's modification date is 0x0b and its
    // four difficulty floats are sixteen 0xff bytes: no string length is read there.
    let mut db = full_listing(20210101, None, &[(1, 2)], None, 0, 0);
    let record = 4 + 4 + 1 + 8 + 1 + 4;
    db[record + 23] = 0x0b;
    for b in &mut db[record + 24..record + 40] {
        *b = 0xff;
    }
    assert!(!reads_overlong_length(&db));
    assert_eq!(get_all_beatmap_ids(&db), Ok(vec![1]));
}

#[test]
fn nine_continuation_bytes_are_read() {
    let mut db = Vec::new();
    push_u32(&mut db, 20210101);
    push_u32(&mut db, 0);
    db.push(1);
    db.extend_from_slice(&[0u8; 8]);
    db.push(0x0b);
    db.extend_from_slice(&[0x80u8; 9]);
    db.push(0);
    push_u32(&mut db, 0);
    push_u32(&mut db, 0);
    assert!(!reads_overlong_length(&db));
    assert_eq!(get_all_beatmap_ids(&db), Ok(vec![]));
}

#[test]
fn dedup_of_one_more_value() {
    let mut u = vec![4, 2, 4];
    let mut w = vec![4, 2, 4, 7];
    let mut v = vec![4, 2, 4, 2];
    dedup(&mut u);
    dedup(&mut w);
    dedup(&mut v);
    assert_eq!(w, vec![4, 2, 7]);
    assert_eq!(v, u);
}
