//! Mapping SMTC's `SourceAppUserModelId` onto Apple Music.
//!
//! Matching is done on the packaged-family prefix or the executable name,
//! never on the full packaged id, and ignores ASCII case. Anything
//! unrecognised is left for the caller to log.
use crate::portable::source_selector::MusicSourceId;
use crate::strings::{
    char_vec_views, split_chars, split_pieces, string_from,
    chars_eq_ignore_ascii_case, chars_of, chars_start_with_ignore_ascii_case, eq_ignore_ascii_case,
    starts_with_ignore_ascii_case, trim, trim_chars, views_of,
};
use vstd::prelude::*;

verus! {

/// Extra AUMIDs supplied at runtime, so an unrecognised install can be made
/// to work without a rebuild.
#[derive(Debug, Clone)]
pub struct AumidOverrides {
    pub apple_music: Vec<String>,
}

impl AumidOverrides {
    /// The patterns, as characters.
    pub open spec fn patterns(&self) -> Seq<Seq<char>> {
        views_of(self.apple_music@)
    }

    pub fn is_empty(&self) -> (b: bool)
        ensures
            b == (self.apple_music@.len() == 0),
    {
        self.apple_music.len() == 0
    }
}

impl Default for AumidOverrides {
    fn default() -> (o: Self)
        ensures
            o.apple_music@.len() == 0,
    {
        AumidOverrides { apple_music: Vec::new() }
    }
}

/// Whether `id` names a stock Apple Music install: one of the two executable
/// names, or one of the two package families. Deliberately specific — a
/// generic name would hand some unrelated player's session to Discord.
pub open spec fn built_in_apple_music(id: Seq<char>) -> bool {
    ||| eq_ignore_ascii_case(id, "applemusic.exe"@)
    ||| eq_ignore_ascii_case(id, "itunes.exe"@)
    ||| starts_with_ignore_ascii_case(id, "appleinc.applemusicwin"@)
    ||| starts_with_ignore_ascii_case(id, "appleinc.itunes"@)
}

/// An override matches either exactly or as a prefix, once trimmed; a blank
/// one matches nothing.
pub open spec fn override_matches(id: Seq<char>, pattern: Seq<char>) -> bool {
    let p = trim(pattern);
    p.len() > 0 && (eq_ignore_ascii_case(id, p) || starts_with_ignore_ascii_case(id, p))
}

/// Whether the session behind `aumid` is Apple Music.
pub open spec fn is_apple_music_id(aumid: Seq<char>, patterns: Seq<Seq<char>>) -> bool {
    let id = trim(aumid);
    id.len() > 0 && ((exists|i: int| 0 <= i < patterns.len() && override_matches(id, #[trigger] patterns[i]))
        || built_in_apple_music(id))
}

fn matches_override(id: &[char], pattern: &str) -> (r: bool)
    ensures
        r == override_matches(id@, pattern@),
{
    let raw = chars_of(pattern);
    let p = trim_chars(raw.as_slice());
    p.len() > 0 && (chars_eq_ignore_ascii_case(id, p.as_slice()) || chars_start_with_ignore_ascii_case(
        id,
        p.as_slice(),
    ))
}

fn matches_any(id: &[char], patterns: &Vec<String>) -> (r: bool)
    ensures
        r == exists|i: int| 0 <= i < patterns@.len() && override_matches(id@, #[trigger] views_of(patterns@)[i]),
{
    let ghost views = views_of(patterns@);
    let mut i: usize = 0;
    while i < patterns.len()
        invariant
            i <= patterns@.len(),
            views == views_of(patterns@),
            forall|j: int| 0 <= j < i ==> !override_matches(id@, #[trigger] views[j]),
        decreases patterns@.len() - i,
    {
        if matches_override(id, patterns[i].as_str()) {
            proof {
                assert(views[i as int] == patterns@[i as int]@);
            }
            return true;
        }
        proof {
            assert(views[i as int] == patterns@[i as int]@);
        }
        i = i + 1;
    }
    false
}

fn matches_built_in(id: &[char]) -> (r: bool)
    ensures
        r == built_in_apple_music(id@),
{
    let apple_music_exe = chars_of("applemusic.exe");
    let itunes_exe = chars_of("itunes.exe");
    let apple_music_win = chars_of("appleinc.applemusicwin");
    let itunes_package = chars_of("appleinc.itunes");
    chars_eq_ignore_ascii_case(id, apple_music_exe.as_slice()) || chars_eq_ignore_ascii_case(
        id,
        itunes_exe.as_slice(),
    ) || chars_start_with_ignore_ascii_case(id, apple_music_win.as_slice())
        || chars_start_with_ignore_ascii_case(id, itunes_package.as_slice())
}

/// Whether the session behind `aumid` is Apple Music. Overrides are consulted
/// first, so a user can name an install the built-in list does not know.
pub fn is_apple_music(aumid: &str, overrides: &AumidOverrides) -> (r: bool)
    ensures
        r == is_apple_music_id(aumid@, overrides.patterns()),
{
    let raw = chars_of(aumid);
    let id = trim_chars(raw.as_slice());
    if id.len() == 0 {
        return false;
    }
    if matches_any(id.as_slice(), &overrides.apple_music) {
        return true;
    }
    matches_built_in(id.as_slice())
}

/// The source the session behind `aumid` belongs to: Apple Music, the only
/// one watched, or nothing.
pub fn source_for_aumid(aumid: &str, overrides: &AumidOverrides) -> (r: Option<MusicSourceId>)
    ensures
        r == if is_apple_music_id(aumid@, overrides.patterns()) {
            Some(MusicSourceId::AppleMusic)
        } else {
            None::<MusicSourceId>
        },
{
    if is_apple_music(aumid, overrides) {
        Some(MusicSourceId::AppleMusic)
    } else {
        None
    }
}

/// The trimmed, non-blank entries of a comma-separated list, in order.
pub open spec fn listed(pieces: Seq<Seq<char>>) -> Seq<Seq<char>>
    decreases pieces.len(),
{
    if pieces.len() == 0 {
        Seq::empty()
    } else {
        let rest = listed(pieces.drop_last());
        let t = trim(pieces.last());
        if t.len() > 0 {
            rest.push(t)
        } else {
            rest
        }
    }
}

impl AumidOverrides {
    /// Overrides read from a comma-separated list, as the environment
    /// carries them: each entry trimmed, blank ones skipped.
    pub fn from_list(list: &str) -> (o: Self)
        ensures
            o.patterns() == listed(split_pieces(list@, ',')),
    {
        let chars = chars_of(list);
        let pieces = split_chars(chars.as_slice(), ',');
        let ghost views = char_vec_views(pieces@);
        let mut out: Vec<String> = Vec::new();
        let mut i: usize = 0;
        while i < pieces.len()
            invariant
                i <= pieces@.len(),
                views == char_vec_views(pieces@),
                views.len() == pieces@.len(),
                views_of(out@) == listed(views.subrange(0, i as int)),
            decreases pieces@.len() - i,
        {
            proof {
                assert(views.subrange(0, i + 1).drop_last() =~= views.subrange(0, i as int));
                assert(views[i as int] == pieces@[i as int]@);
            }
            let t = trim_chars(pieces[i].as_slice());
            if t.len() > 0 {
                let ghost before = out@;
                out.push(string_from(t.as_slice()));
                proof {
                    assert(views_of(out@) =~= views_of(before).push(t@));
                }
            }
            i = i + 1;
        }
        proof {
            assert(views.subrange(0, views.len() as int) =~= views);
        }
        AumidOverrides { apple_music: out }
    }
}

/// A stock Apple Music or iTunes session is recognised whatever overrides
/// are configured: its id, once trimmed, is `AppleMusic.exe` or `iTunes.exe`,
/// or starts with the `AppleInc.AppleMusicWin` or `AppleInc.iTunes` package
/// family, ASCII case ignored. With no overrides, nothing else is.
pub proof fn lemma_stock_apple_music_is_always_recognised(aumid: Seq<char>, patterns: Seq<Seq<char>>)
    ensures
        ({
            let id = trim(aumid);
            let stock = eq_ignore_ascii_case(id, "applemusic.exe"@) || eq_ignore_ascii_case(id, "itunes.exe"@)
                || starts_with_ignore_ascii_case(id, "appleinc.applemusicwin"@) || starts_with_ignore_ascii_case(
                id,
                "appleinc.itunes"@,
            );
            &&& stock ==> is_apple_music_id(aumid, patterns)
            &&& is_apple_music_id(aumid, Seq::empty()) <==> stock
        }),
{
    reveal_strlit("applemusic.exe");
    reveal_strlit("itunes.exe");
    reveal_strlit("appleinc.applemusicwin");
    reveal_strlit("appleinc.itunes");
}

} // verus!
