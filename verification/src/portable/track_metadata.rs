//! Repairing the metadata shape SMTC hands over.
//!
//! Apple Music for Windows leaves `AlbumTitle` empty and packs the album into
//! the artist field instead, as `<artist> — <album>` (U+2014, spaced).
use crate::strings::{chars_of, find, find_chars, slice_chars, string_from, to_owned_string, trim, trim_chars};
use vstd::prelude::*;

verus! {

/// Space, EM DASH, space. Deliberately not a plain hyphen: album names
/// routinely contain " - ".
pub open spec fn combined_separator() -> Seq<char> {
    seq![' ', '\u{2014}', ' ']
}

/// What `split_combined_artist` returns: the artist and album as given when
/// the album is filled in, when there is no separator, or when splitting at
/// the first one would leave either half blank; otherwise the two trimmed
/// halves around the first separator.
pub open spec fn split_combined(artist: Seq<char>, album: Seq<char>) -> (Seq<char>, Seq<char>) {
    if trim(album).len() > 0 {
        (artist, album)
    } else {
        match find(artist, combined_separator()) {
            None => (artist, album),
            Some(i) => {
                let name = trim(artist.subrange(0, i));
                let title = trim(artist.subrange(i + 3, artist.len() as int));
                if name.len() == 0 || title.len() == 0 {
                    (artist, album)
                } else {
                    (name, title)
                }
            },
        }
    }
}

/// Splits `<artist> — <album>` back apart, but only when there is nothing to
/// lose. The first separator wins, so an album with its own dash stays whole.
pub fn split_combined_artist(artist: &str, album: &str) -> (r: (String, String))
    ensures
        (r.0@, r.1@) == split_combined(artist@, album@),
{
    let album_chars = chars_of(album);
    let trimmed_album = trim_chars(album_chars.as_slice());
    if trimmed_album.len() > 0 {
        return (to_owned_string(artist), to_owned_string(album));
    }
    let a = chars_of(artist);
    let alen = a.len();
    let sep = ['\u{2014}'; 1];
    let separator = [' ', sep[0], ' '];
    proof {
        assert(separator@ =~= combined_separator());
    }
    let index = match find_chars(a.as_slice(), &separator) {
        None => return (to_owned_string(artist), to_owned_string(album)),
        Some(i) => i,
    };
    proof {
        assert(crate::strings::occurs_at(a@, index as int, separator@)) by {
            crate::strings::lemma_find_occurs(a@, separator@, 0);
        }
    }
    let head = slice_chars(a.as_slice(), 0, index);
    let tail = slice_chars(a.as_slice(), index + 3, alen);
    let name = trim_chars(head.as_slice());
    let title = trim_chars(tail.as_slice());
    if name.len() == 0 || title.len() == 0 {
        return (to_owned_string(artist), to_owned_string(album));
    }
    (string_from(name.as_slice()), string_from(title.as_slice()))
}

} // verus!
