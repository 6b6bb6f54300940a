//! Apple Music for Windows reports "Artist — Album" in the artist field.

use ceyrad::portable::track_metadata::split_combined_artist;

#[test]
fn splits_the_shape_apple_music_for_windows_reports() {
    let (artist, album) = split_combined_artist("Mrs. GREEN APPLE — Brand New - Single", "");
    assert_eq!(artist, "Mrs. GREEN APPLE");
    assert_eq!(album, "Brand New - Single");
}

#[test]
fn leaves_a_filled_in_album_alone() {
    let (artist, album) = split_combined_artist("Some — Artist", "Real Album");
    assert_eq!(artist, "Some — Artist");
    assert_eq!(album, "Real Album");
}

#[test]
fn keeps_the_remainder_whole_when_the_album_has_its_own_dash() {
    let (artist, album) = split_combined_artist("Artist — Album — Deluxe", "");
    assert_eq!(artist, "Artist");
    assert_eq!(album, "Album — Deluxe");
}

#[test]
fn does_not_split_on_a_hyphen() {
    let (artist, album) = split_combined_artist("Brand New - Single", "");
    assert_eq!(artist, "Brand New - Single");
    assert_eq!(album, "");
}

#[test]
fn refuses_a_split_that_would_empty_a_half() {
    let (artist, album) = split_combined_artist("— Album", "");
    assert_eq!(artist, "— Album");
    assert_eq!(album, "");
}

#[test]
fn passes_through_an_ordinary_artist() {
    let (artist, album) = split_combined_artist("Mrs. GREEN APPLE", "");
    assert_eq!(artist, "Mrs. GREEN APPLE");
    assert_eq!(album, "");
}
