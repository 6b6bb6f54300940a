//! The catalog lookup: the request, the matching tiers, and what a match
//! becomes.

use ceyrad::portable::itunes::{
    best_candidate, catalog_from, percent_encode, pick_best, search_url, strip_album_suffix,
    strip_featuring, Candidate, SearchResult,
};

fn result(track: &str, artist: &str, album: &str) -> SearchResult {
    SearchResult {
        track_name: Some(track.into()),
        artist_name: Some(artist.into()),
        collection_name: Some(album.into()),
        track_view_url: Some(format!("https://music.apple.com/{track}")),
        ..Default::default()
    }
}

#[test]
fn search_url_escapes_the_term() {
    let url = search_url("R&B Song", "A/B", "JP");
    assert!(url.contains("term=R%26B%20Song%20A%2FB"), "{url}");
    assert!(url.ends_with("&country=JP"));
}

#[test]
fn search_url_drops_featuring_from_the_term() {
    let url = search_url("Song (feat. Someone)", "Artist", "US");
    assert!(url.contains("term=Song%20Artist"), "{url}");
}

#[test]
fn artwork_is_upscaled() {
    let catalog = catalog_from(&SearchResult {
        artwork_url100: Some("https://is1.mzstatic.com/a/100x100bb.jpg".into()),
        ..Default::default()
    });
    assert_eq!(catalog.artwork_url.as_deref(), Some("https://is1.mzstatic.com/a/512x512bb.jpg"));
}

#[test]
fn exact_album_match_beats_an_earlier_loose_one() {
    let results = [
        result("Brand New", "Mrs. GREEN APPLE", "Greatest Hits"),
        result("Brand New", "Mrs. GREEN APPLE", "Brand New - Single"),
    ];
    let best = pick_best(&results, "Brand New", "Mrs. GREEN APPLE", "Brand New - Single");
    assert_eq!(best.and_then(|r| r.collection_name.as_deref()), Some("Brand New - Single"));
}

#[test]
fn a_different_song_is_rejected_outright() {
    let results = [result("Something Else", "Another Artist", "Whatever")];
    assert!(pick_best(&results, "Brand New", "Mrs. GREEN APPLE", "").is_none());
}

#[test]
fn matching_survives_a_featuring_difference() {
    let results = [result("Song (feat. Guest)", "Artist", "Album")];
    let best = pick_best(&results, "Song", "Artist", "Album");
    assert!(best.is_some());
}

#[test]
fn matching_is_width_and_case_insensitive() {
    let results = [result("ＢＲＡＮＤ ＮＥＷ", "Mrs. GREEN APPLE", "x")];
    assert!(pick_best(&results, "brand new", "mrs. green apple", "x").is_some());
}

#[test]
fn strip_featuring_handles_both_shapes() {
    assert_eq!(strip_featuring("Song (feat. Guest)"), "Song");
    assert_eq!(strip_featuring("Song [Featuring Guest]"), "Song");
    assert_eq!(strip_featuring("Song feat. Guest"), "Song");
    assert_eq!(strip_featuring("Song ft Guest"), "Song");
    assert_eq!(strip_featuring("Song (with Guest)"), "Song");
}

#[test]
fn strip_featuring_keeps_a_title_that_is_only_a_credit() {
    assert_eq!(strip_featuring("feat. Guest"), "feat. Guest");
}

#[test]
fn strip_featuring_leaves_unrelated_brackets_and_words() {
    assert_eq!(strip_featuring("Song (Remix)"), "Song (Remix)");
    assert_eq!(strip_featuring("Software Update"), "Software Update");
}

#[test]
fn strip_album_suffix_drops_single_and_ep_only() {
    assert_eq!(strip_album_suffix("Brand New - Single"), "Brand New");
    assert_eq!(strip_album_suffix("Something - ep"), "Something");
    assert_eq!(strip_album_suffix("Brand New"), "Brand New");
    assert_eq!(strip_album_suffix("- Single"), "- Single");
    assert_eq!(strip_album_suffix("Live in Japan"), "Live in Japan");
    assert_eq!(strip_album_suffix("Re-Single Album"), "Re-Single Album");
}

#[test]
fn an_artist_match_beats_an_earlier_name_only_one() {
    let results = [result("Song", "Cover Band", "Tribute"), result("Song", "Artist", "Album")];
    let best = pick_best(&results, "Song", "Artist", "Album").expect("a match");
    assert_eq!(best.artist_name.as_deref(), Some("Artist"));
}

#[test]
fn matching_ignores_case_width_and_diacritics() {
    let results = [result("CAFE SONG", "Artist", "Album")];
    for (name, artist) in [
        ("ＣＡＦÉ　ＳＯＮＧ", "Ａｒｔｉｓｔ"),
        ("café song", "artist"),
        ("cafe\u{301} song", "artist"),
    ] {
        assert!(pick_best(&results, name, artist, "Album").is_some(), "{name:?} / {artist:?}");
    }
}

#[test]
fn featuring_matches_whichever_side_carries_it() {
    let results = [result("Song", "Artist", "Album")];
    assert!(pick_best(&results, "Song (feat. Guest)", "Artist", "Album").is_some());

    let with_feat = [result("Song feat. Guest", "Artist", "Album")];
    assert!(pick_best(&with_feat, "Song", "Artist", "Album").is_some());
}

fn candidate(track: &str, no_feat: &str, artist: &str, album: &str) -> Candidate {
    Candidate {
        track: track.into(),
        track_no_feat: no_feat.into(),
        artist: artist.into(),
        album: album.into(),
    }
}

#[test]
fn the_best_tier_wins_over_an_earlier_candidate() {
    let wanted = candidate("song", "song", "artist", "album");
    let candidates = [
        candidate("song", "song", "other", "album"),
        candidate("song (x)", "song", "artist", "other"),
        candidate("song", "song", "artist", "other"),
    ];
    assert_eq!(best_candidate(&candidates, &wanted), Some(2));
    let fewer = [candidate("song", "song", "other", "album"), candidate("song (x)", "song", "artist", "other")];
    assert_eq!(best_candidate(&fewer, &wanted), Some(1));
    let loosest = [candidate("nope", "nope", "artist", "album"), candidate("song (x)", "song", "other", "x")];
    assert_eq!(best_candidate(&loosest, &wanted), Some(1));
    let none = [candidate("nope", "nope", "artist", "album")];
    assert_eq!(best_candidate(&none, &wanted), None);
}

#[test]
fn percent_encoding_escapes_every_byte_outside_the_unreserved_set() {
    assert_eq!(percent_encode("a-b_c.d~e"), "a-b_c.d~e");
    assert_eq!(percent_encode("é #"), "%C3%A9%20%23");
    assert_eq!(percent_encode(""), "");
}

#[test]
fn every_thumbnail_marker_in_the_artwork_url_is_replaced() {
    let catalog = catalog_from(&SearchResult {
        artwork_url100: Some("a/100x100bb/100x100bb.jpg".into()),
        track_view_url: Some("https://music.apple.com/t".into()),
        ..Default::default()
    });
    assert_eq!(catalog.artwork_url.as_deref(), Some("a/512x512bb/512x512bb.jpg"));
    assert_eq!(catalog.song_url.as_deref(), Some("https://music.apple.com/t"));
    assert_eq!(catalog.artist_url, None);
}
