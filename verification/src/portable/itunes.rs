//! iTunes Search API: everything about the lookup that is not I/O.
//!
//! Matching is deliberately strict. A wrong link under someone's presence is
//! worse than no link, so a result is only accepted when it agrees with the
//! track on one of a few ranked tiers; anything below them is discarded.
use crate::portable::activity_builder::{clone_opt, opt_view};
use crate::portable::models::CatalogInfo;
use crate::strings::{
    ascii_lower, char_is_whitespace, char_to_ascii_lower, chars_eq_ignore_ascii_case, chars_of, eq_ignore_ascii_case, is_whitespace, push_char, push_str, replace_all, replaced, slice_chars, starts_with_ignore_ascii_case, str_eq, string_from, to_owned_string, trim, trim_chars, trim_end,
};
use vstd::prelude::*;
use vstd::string::*;

verus! {

/// How many results a search asks for; the best is picked from them.
pub const RESULT_LIMIT: u64 = 10;

/// One search result, as far as the lookup reads it.
#[derive(Debug, Clone)]
pub struct SearchResult {
    pub track_name: Option<String>,
    pub artist_name: Option<String>,
    pub collection_name: Option<String>,
    pub track_view_url: Option<String>,
    pub artist_view_url: Option<String>,
    pub collection_view_url: Option<String>,
    pub artwork_url100: Option<String>,
}

impl SearchResult {
    /// A result with nothing in it.
    pub fn empty() -> (r: Self)
        ensures
            r.track_name is None,
            r.artist_name is None,
            r.collection_name is None,
            r.track_view_url is None,
            r.artist_view_url is None,
            r.collection_view_url is None,
            r.artwork_url100 is None,
    {
        SearchResult {
            track_name: None,
            artist_name: None,
            collection_name: None,
            track_view_url: None,
            artist_view_url: None,
            collection_view_url: None,
            artwork_url100: None,
        }
    }
}

impl Default for SearchResult {
    fn default() -> (r: Self)
        ensures
            r.track_name is None,
            r.artist_name is None,
            r.collection_name is None,
            r.track_view_url is None,
            r.artist_view_url is None,
            r.collection_view_url is None,
            r.artwork_url100 is None,
    {
        SearchResult::empty()
    }
}

/// The results of one search.
#[derive(Debug, Clone)]
pub struct SearchResponse {
    pub results: Vec<SearchResult>,
}

// MARK: - Folding

/// What `char::to_lowercase` yields for `c`: Unicode's full lower-case
/// mapping, one to three characters.
pub uninterp spec fn unicode_lowercase(c: char) -> Seq<char>;

/// Calls `char::to_lowercase` and collects the characters it yields. The
/// contract claims only that they are the mapping named above, the same for
/// the same `c` every time; what that mapping is stays unstated.
#[verifier::external_body]
fn char_to_lowercase(c: char) -> (r: Vec<char>)
    ensures
        r@ == unicode_lowercase(c),
{
    c.to_lowercase().collect()
}

/// Precomposed Latin-1 and Latin Extended-A onto their base letters;
/// anything outside the table is left alone.
pub open spec fn spec_fold_diacritic(c: char) -> char {
    match c {
        'À'..='Å' | 'Ā' | 'Ă' | 'Ą' => 'A',
        'Æ' => 'A',
        'Ç' | 'Ć' | 'Ĉ' | 'Ċ' | 'Č' => 'C',
        'Ď' | 'Đ' => 'D',
        'È'..='Ë' | 'Ē' | 'Ĕ' | 'Ė' | 'Ę' | 'Ě' => 'E',
        'Ĝ'..='Ģ' => 'G',
        'Ĥ' | 'Ħ' => 'H',
        'Ì'..='Ï' | 'Ĩ' | 'Ī' | 'Ĭ' | 'Į' | 'İ' => 'I',
        'Ĵ' => 'J',
        'Ķ' => 'K',
        'Ĺ' | 'Ļ' | 'Ľ' | 'Ŀ' | 'Ł' => 'L',
        'Ñ' | 'Ń' | 'Ņ' | 'Ň' | 'Ŋ' => 'N',
        'Ò'..='Ö' | 'Ø' | 'Ō' | 'Ŏ' | 'Ő' => 'O',
        'Ŕ' | 'Ŗ' | 'Ř' => 'R',
        'Ś' | 'Ŝ' | 'Ş' | 'Š' => 'S',
        'Ţ' | 'Ť' | 'Ŧ' => 'T',
        'Ù'..='Ü' | 'Ũ' | 'Ū' | 'Ŭ' | 'Ů' | 'Ű' | 'Ų' => 'U',
        'Ŵ' => 'W',
        'Ý' | 'Ŷ' | 'Ÿ' => 'Y',
        'Ź' | 'Ż' | 'Ž' => 'Z',
        'à'..='å' | 'ā' | 'ă' | 'ą' => 'a',
        'æ' => 'a',
        'ç' | 'ć' | 'ĉ' | 'ċ' | 'č' => 'c',
        'ď' | 'đ' => 'd',
        'è'..='ë' | 'ē' | 'ĕ' | 'ė' | 'ę' | 'ě' => 'e',
        'ĝ'..='ģ' => 'g',
        'ĥ' | 'ħ' => 'h',
        'ì'..='ï' | 'ĩ' | 'ī' | 'ĭ' | 'į' | 'ı' => 'i',
        'ĵ' => 'j',
        'ķ' => 'k',
        'ĺ' | 'ļ' | 'ľ' | 'ŀ' | 'ł' => 'l',
        'ñ' | 'ń' | 'ņ' | 'ň' | 'ŉ' | 'ŋ' => 'n',
        'ò'..='ö' | 'ø' | 'ō' | 'ŏ' | 'ő' => 'o',
        'ŕ' | 'ŗ' | 'ř' => 'r',
        'ś' | 'ŝ' | 'ş' | 'š' => 's',
        'ţ' | 'ť' | 'ŧ' => 't',
        'ù'..='ü' | 'ũ' | 'ū' | 'ŭ' | 'ů' | 'ű' | 'ų' => 'u',
        'ŵ' => 'w',
        'ý' | 'ÿ' | 'ŷ' => 'y',
        'ź' | 'ż' | 'ž' => 'z',
        _ => c,
    }
}

pub fn fold_diacritic(c: char) -> (r: char)
    ensures
        r == spec_fold_diacritic(c),
{
    match c {
        'À'..='Å' | 'Ā' | 'Ă' | 'Ą' => 'A',
        'Æ' => 'A',
        'Ç' | 'Ć' | 'Ĉ' | 'Ċ' | 'Č' => 'C',
        'Ď' | 'Đ' => 'D',
        'È'..='Ë' | 'Ē' | 'Ĕ' | 'Ė' | 'Ę' | 'Ě' => 'E',
        'Ĝ'..='Ģ' => 'G',
        'Ĥ' | 'Ħ' => 'H',
        'Ì'..='Ï' | 'Ĩ' | 'Ī' | 'Ĭ' | 'Į' | 'İ' => 'I',
        'Ĵ' => 'J',
        'Ķ' => 'K',
        'Ĺ' | 'Ļ' | 'Ľ' | 'Ŀ' | 'Ł' => 'L',
        'Ñ' | 'Ń' | 'Ņ' | 'Ň' | 'Ŋ' => 'N',
        'Ò'..='Ö' | 'Ø' | 'Ō' | 'Ŏ' | 'Ő' => 'O',
        'Ŕ' | 'Ŗ' | 'Ř' => 'R',
        'Ś' | 'Ŝ' | 'Ş' | 'Š' => 'S',
        'Ţ' | 'Ť' | 'Ŧ' => 'T',
        'Ù'..='Ü' | 'Ũ' | 'Ū' | 'Ŭ' | 'Ů' | 'Ű' | 'Ų' => 'U',
        'Ŵ' => 'W',
        'Ý' | 'Ŷ' | 'Ÿ' => 'Y',
        'Ź' | 'Ż' | 'Ž' => 'Z',
        'à'..='å' | 'ā' | 'ă' | 'ą' => 'a',
        'æ' => 'a',
        'ç' | 'ć' | 'ĉ' | 'ċ' | 'č' => 'c',
        'ď' | 'đ' => 'd',
        'è'..='ë' | 'ē' | 'ĕ' | 'ė' | 'ę' | 'ě' => 'e',
        'ĝ'..='ģ' => 'g',
        'ĥ' | 'ħ' => 'h',
        'ì'..='ï' | 'ĩ' | 'ī' | 'ĭ' | 'į' | 'ı' => 'i',
        'ĵ' => 'j',
        'ķ' => 'k',
        'ĺ' | 'ļ' | 'ľ' | 'ŀ' | 'ł' => 'l',
        'ñ' | 'ń' | 'ņ' | 'ň' | 'ŉ' | 'ŋ' => 'n',
        'ò'..='ö' | 'ø' | 'ō' | 'ŏ' | 'ő' => 'o',
        'ŕ' | 'ŗ' | 'ř' => 'r',
        'ś' | 'ŝ' | 'ş' | 'š' => 's',
        'ţ' | 'ť' | 'ŧ' => 't',
        'ù'..='ü' | 'ũ' | 'ū' | 'ŭ' | 'ů' | 'ű' | 'ų' => 'u',
        'ŵ' => 'w',
        'ý' | 'ÿ' | 'ŷ' => 'y',
        'ź' | 'ż' | 'ž' => 'z',
        _ => c,
    }
}

/// Whether `c` is a combining diacritical mark (U+0300–U+036F), which the
/// fold drops so `e` + U+0301 and `é` compare equal.
pub open spec fn is_combining_mark(c: char) -> bool {
    0x0300 <= (c as u32) <= 0x036F
}

/// Fullwidth ASCII onto its halfwidth twin, the ideographic space onto a
/// space, and accented Latin letters onto their base letters.
pub open spec fn folded_char(c: char) -> char {
    let u = c as u32;
    if 0xFF01 <= u <= 0xFF5E {
        ((u - 0xFEE0) as u32) as char
    } else if u == 0x3000 {
        ' '
    } else {
        spec_fold_diacritic(c)
    }
}

fn fold_char(c: char) -> (r: char)
    ensures
        r == folded_char(c),
{
    let u = c as u32;
    if 0xFF01 <= u && u <= 0xFF5E {
        let b = (u - 0xFEE0) as u8;
        b as char
    } else if u == 0x3000 {
        ' '
    } else {
        fold_diacritic(c)
    }
}

/// Each character of `s`, combining marks dropped, folded and lower-cased.
pub open spec fn lowered(s: Seq<char>) -> Seq<char>
    decreases s.len(),
{
    if s.len() == 0 {
        Seq::empty()
    } else if is_combining_mark(s.last()) {
        lowered(s.drop_last())
    } else {
        lowered(s.drop_last()) + unicode_lowercase(folded_char(s.last()))
    }
}

/// Case-, width- and diacritic-insensitive folding, so `ＣＡＦÉ` and `cafe`
/// compare equal.
pub open spec fn normalized(s: Seq<char>) -> Seq<char> {
    trim(lowered(s))
}

fn norm(s: &[char]) -> (r: Vec<char>)
    ensures
        r@ == normalized(s@),
{
    let mut out: Vec<char> = Vec::new();
    let mut i: usize = 0;
    while i < s.len()
        invariant
            i <= s@.len(),
            out@ == lowered(s@.subrange(0, i as int)),
        decreases s@.len() - i,
    {
        let c = s[i];
        proof {
            assert(s@.subrange(0, i + 1).drop_last() =~= s@.subrange(0, i as int));
        }
        let u = c as u32;
        if !(0x0300 <= u && u <= 0x036F) {
            let lower = char_to_lowercase(fold_char(c));
            let mut j: usize = 0;
            let ghost before = out@;
            while j < lower.len()
                invariant
                    j <= lower@.len(),
                    out@ == before + lower@.subrange(0, j as int),
                decreases lower@.len() - j,
            {
                out.push(lower[j]);
                j = j + 1;
                proof {
                    assert(out@ =~= before + lower@.subrange(0, j as int));
                }
            }
            proof {
                assert(lower@.subrange(0, lower@.len() as int) =~= lower@);
            }
        }
        i = i + 1;
    }
    proof {
        assert(s@.subrange(0, s@.len() as int) =~= s@);
    }
    trim_chars(out.as_slice())
}

// MARK: - Absorbing spelling differences

/// Whether `rest` opens with `keyword` (compared after ASCII lower-casing)
/// followed by `.` or whitespace.
pub open spec fn keyword_at(rest: Seq<char>, keyword: Seq<char>) -> bool {
    &&& rest.len() > keyword.len()
    &&& forall|j: int| 0 <= j < keyword.len() ==> #[trigger] ascii_lower(rest[j]) == keyword[j]
    &&& (rest[keyword.len() as int] == '.' || is_whitespace(rest[keyword.len() as int]))
}

/// The credits that open a bracketed group worth dropping.
pub open spec fn bracketed_keyword(rest: Seq<char>) -> bool {
    keyword_at(rest, "featuring"@) || keyword_at(rest, "feat"@) || keyword_at(rest, "ft"@)
        || keyword_at(rest, "with"@)
}

/// The credits that end a title when they follow whitespace.
pub open spec fn trailing_keyword(rest: Seq<char>) -> bool {
    keyword_at(rest, "featuring"@) || keyword_at(rest, "feat"@) || keyword_at(rest, "ft"@)
}

pub open spec fn is_close_bracket(c: char) -> bool {
    c == ')' || c == ']'
}

/// The first closing bracket at or after `j`.
pub open spec fn close_from(s: Seq<char>, j: int) -> Option<int>
    decreases s.len() - j,
{
    if j < 0 || j >= s.len() {
        None
    } else if is_close_bracket(s[j]) {
        Some(j)
    } else {
        close_from(s, j + 1)
    }
}

/// A closing bracket `close_from` finds is one, and lies at or after `j`.
pub proof fn lemma_close_from_bounds(s: Seq<char>, j: int)
    ensures
        close_from(s, j) matches Some(k) ==> j <= k < s.len() && is_close_bracket(s[k]),
    decreases s.len() - j,
{
    if j < 0 || j >= s.len() {
    } else if is_close_bracket(s[j]) {
    } else {
        lemma_close_from_bounds(s, j + 1);
    }
}

/// The characters of `s` from `i` on, appended to `out`, with `(feat. X)`-
/// style groups dropped along with the whitespace that led into them, and
/// everything from a whitespace-led trailing credit on dropped.
pub open spec fn strip_from(s: Seq<char>, i: int, out: Seq<char>) -> Seq<char>
    decreases s.len() - i,
{
    if i < 0 || i >= s.len() {
        out
    } else {
        let c = s[i];
        let rest = s.subrange(i + 1, s.len() as int);
        if (c == '(' || c == '[') && bracketed_keyword(rest) && close_from(s, i + 1) is Some {
            proof {
                lemma_close_from_bounds(s, i + 1);
            }
            strip_from(s, close_from(s, i + 1)->0 + 1, trim_end(out))
        } else if is_whitespace(c) && trailing_keyword(rest) {
            out
        } else {
            strip_from(s, i + 1, out.push(c))
        }
    }
}

/// What `strip_featuring` returns: the stripped title, or the input
/// unchanged when stripping would leave nothing behind.
pub open spec fn stripped_featuring(s: Seq<char>) -> Seq<char> {
    let r = trim(strip_from(s, 0, Seq::empty()));
    if r.len() == 0 { s } else { r }
}

/// The credit words that end a title, all lower-case letters.
proof fn lemma_credit_words_are_lower_case_letters(k: Seq<char>)
    requires
        k == "featuring"@ || k == "feat"@ || k == "ft"@,
    ensures
        k.len() >= 2,
        forall|j: int| 0 <= j < k.len() ==> 'a' <= #[trigger] k[j] <= 'z',
{
    reveal_strlit("featuring");
    reveal_strlit("feat");
    reveal_strlit("ft");
}

/// Inside a title free of credits, a whitespace character at `i` is not
/// followed by a credit word, even where the title's end runs into the
/// whitespace after it.
proof fn lemma_no_credit_inside(t: Seq<char>, s: Seq<char>, i: int, k: Seq<char>)
    requires
        0 <= i < t.len(),
        s.len() > t.len(),
        s.subrange(0, t.len() as int) == t,
        is_whitespace(s[t.len() as int]),
        k.len() >= 1,
        forall|j: int| 0 <= j < k.len() ==> 'a' <= #[trigger] k[j] <= 'z',
        !starts_with_ignore_ascii_case(t.skip(i + 1), k),
    ensures
        !keyword_at(s.subrange(i + 1, s.len() as int), k),
{
    let rest = s.subrange(i + 1, s.len() as int);
    if keyword_at(rest, k) {
        if i + 1 + k.len() <= t.len() {
            let head = t.skip(i + 1).subrange(0, k.len() as int);
            assert forall|j: int| 0 <= j < head.len() implies #[trigger] ascii_lower(head[j]) == ascii_lower(k[j]) by {
                assert(head[j] == t[i + 1 + j]);
                assert(t[i + 1 + j] == s[i + 1 + j]);
                assert(rest[j] == s[i + 1 + j]);
                assert(ascii_lower(rest[j]) == k[j]);
            }
            assert(starts_with_ignore_ascii_case(t.skip(i + 1), k));
        } else {
            let m = t.len() - (i + 1);
            assert(rest[m] == s[t.len() as int]);
            assert(ascii_lower(rest[m]) == k[m]);
            assert('a' <= k[m] <= 'z');
        }
    }
}

/// A trailing credit is dropped with everything after it: for a title `t`
/// with no bracket and no whitespace-led `featuring`, `feat` or `ft` of its
/// own, `t`, whitespace, one of those words, a `.` or whitespace, and then
/// anything at all, strips to `t` trimmed.
pub proof fn lemma_a_trailing_credit_is_dropped(t: Seq<char>, w: char, k: Seq<char>, sep: char, x: Seq<char>)
    requires
        forall|i: int|
            0 <= i < t.len() ==> #[trigger] t[i] != '(' && t[i] != '[' && (is_whitespace(t[i]) ==> (
            !starts_with_ignore_ascii_case(t.skip(i + 1), "featuring"@) && !starts_with_ignore_ascii_case(
                t.skip(i + 1),
                "feat"@,
            ) && !starts_with_ignore_ascii_case(t.skip(i + 1), "ft"@))),
        trim(t).len() > 0,
        is_whitespace(w),
        k == "featuring"@ || k == "feat"@ || k == "ft"@,
        sep == '.' || is_whitespace(sep),
    ensures
        stripped_featuring(t + seq![w] + k + seq![sep] + x) == trim(t),
{
    let s = t + seq![w] + k + seq![sep] + x;
    assert(s.subrange(0, t.len() as int) =~= t);
    assert(s[t.len() as int] == w);
    lemma_strip_keeps_a_credit_free_title(t, s, 0);
    assert(t.take(0) =~= Seq::<char>::empty());
    // The whitespace after the title opens the credit.
    lemma_credit_words_are_lower_case_letters(k);
    let rest = s.subrange(t.len() as int + 1, s.len() as int);
    assert forall|j: int| 0 <= j < k.len() implies #[trigger] ascii_lower(rest[j]) == k[j] by {
        assert(rest[j] == k[j]);
    }
    assert(rest[k.len() as int] == sep);
    assert(keyword_at(rest, k));
    assert(trailing_keyword(rest));
    assert(strip_from(s, t.len() as int, t) == t);
}

/// Walking a credit-free title keeps every character of it.
proof fn lemma_strip_keeps_a_credit_free_title(t: Seq<char>, s: Seq<char>, i: int)
    requires
        0 <= i <= t.len(),
        s.len() > t.len(),
        s.subrange(0, t.len() as int) == t,
        is_whitespace(s[t.len() as int]),
        forall|i: int|
            0 <= i < t.len() ==> #[trigger] t[i] != '(' && t[i] != '[' && (is_whitespace(t[i]) ==> (
            !starts_with_ignore_ascii_case(t.skip(i + 1), "featuring"@) && !starts_with_ignore_ascii_case(
                t.skip(i + 1),
                "feat"@,
            ) && !starts_with_ignore_ascii_case(t.skip(i + 1), "ft"@))),
    ensures
        strip_from(s, i, t.take(i)) == strip_from(s, t.len() as int, t),
    decreases t.len() - i,
{
    if i < t.len() {
        let c = s[i];
        assert(c == t[i]);
        let rest = s.subrange(i + 1, s.len() as int);
        assert(t[i] != '(' && t[i] != '[');
        if is_whitespace(c) {
            lemma_credit_words_are_lower_case_letters("featuring"@);
            lemma_credit_words_are_lower_case_letters("feat"@);
            lemma_credit_words_are_lower_case_letters("ft"@);
            lemma_no_credit_inside(t, s, i, "featuring"@);
            lemma_no_credit_inside(t, s, i, "feat"@);
            lemma_no_credit_inside(t, s, i, "ft"@);
            assert(!trailing_keyword(rest));
        }
        assert(t.take(i).push(c) =~= t.take(i + 1));
        lemma_strip_keeps_a_credit_free_title(t, s, i + 1);
    } else {
        assert(t.take(i) =~= t);
    }
}

fn keyword_at_exec(s: &[char], start: usize, keyword: &[char]) -> (r: bool)
    requires
        start <= s@.len(),
    ensures
        r == keyword_at(s@.subrange(start as int, s@.len() as int), keyword@),
{
    let ghost rest = s@.subrange(start as int, s@.len() as int);
    let n = s.len();
    if n - start <= keyword.len() {
        return false;
    }
    let mut j: usize = 0;
    while j < keyword.len()
        invariant
            n == s@.len(),
            start + keyword@.len() < n,
            rest == s@.subrange(start as int, s@.len() as int),
            j <= keyword@.len(),
            forall|k: int| 0 <= k < j ==> #[trigger] ascii_lower(rest[k]) == keyword@[k],
        decreases keyword@.len() - j,
    {
        if char_to_ascii_lower(s[start + j]) != keyword[j] {
            proof {
                assert(rest[j as int] == s@[start + j]);
            }
            return false;
        }
        proof {
            assert(rest[j as int] == s@[start + j]);
        }
        j = j + 1;
    }
    let next = s[start + keyword.len()];
    proof {
        assert(rest[keyword@.len() as int] == next);
    }
    next == '.' || char_is_whitespace(next)
}

fn any_keyword_at(s: &[char], start: usize, bracketed: bool) -> (r: bool)
    requires
        start <= s@.len(),
    ensures
        r == if bracketed {
            bracketed_keyword(s@.subrange(start as int, s@.len() as int))
        } else {
            trailing_keyword(s@.subrange(start as int, s@.len() as int))
        },
{
    let featuring = chars_of("featuring");
    let feat = chars_of("feat");
    let ft = chars_of("ft");
    let with = chars_of("with");
    let found = keyword_at_exec(s, start, featuring.as_slice()) || keyword_at_exec(s, start, feat.as_slice())
        || keyword_at_exec(s, start, ft.as_slice());
    if bracketed {
        found || keyword_at_exec(s, start, with.as_slice())
    } else {
        found
    }
}

fn find_close(s: &[char], from: usize) -> (r: Option<usize>)
    ensures
        match r {
            Some(k) => close_from(s@, from as int) == Some(k as int),
            None => close_from(s@, from as int) is None,
        },
{
    let mut j = from;
    while j < s.len()
        invariant
            from <= j,
            close_from(s@, from as int) == close_from(s@, j as int),
        decreases s@.len() - j,
    {
        if s[j] == ')' || s[j] == ']' {
            return Some(j);
        }
        j = j + 1;
    }
    None
}

fn pop_trailing_whitespace(out: &mut Vec<char>)
    ensures
        final(out)@ == trim_end(old(out)@),
{
    while out.len() > 0 && char_is_whitespace(out[out.len() - 1])
        invariant
            trim_end(old(out)@) == trim_end(out@),
        decreases out@.len(),
    {
        let ghost before = out@;
        out.pop();
        proof {
            assert(out@ =~= before.drop_last());
        }
    }
}

fn strip_core(s: &[char]) -> (r: Vec<char>)
    ensures
        r@ == strip_from(s@, 0, Seq::empty()),
{
    let mut out: Vec<char> = Vec::new();
    let mut i: usize = 0;
    while i < s.len()
        invariant
            i <= s@.len(),
            strip_from(s@, 0, Seq::empty()) == strip_from(s@, i as int, out@),
        decreases s@.len() - i,
    {
        let c = s[i];
        if (c == '(' || c == '[') && any_keyword_at(s, i + 1, true) {
            match find_close(s, i + 1) {
                Some(close) => {
                    proof {
                        lemma_close_from_bounds(s@, i + 1);
                    }
                    pop_trailing_whitespace(&mut out);
                    i = close + 1;
                    continue;
                },
                None => {},
            }
        }
        if char_is_whitespace(c) && any_keyword_at(s, i + 1, false) {
            return out;
        }
        out.push(c);
        i = i + 1;
    }
    out
}

/// Drops `(feat. X)`, `[featuring X]` and a trailing `feat. X`. Returns the
/// input unchanged when stripping would leave nothing behind.
pub fn strip_featuring(s: &str) -> (r: String)
    ensures
        r@ == stripped_featuring(s@),
{
    let chars = chars_of(s);
    let core = strip_core(chars.as_slice());
    let stripped = trim_chars(core.as_slice());
    if stripped.len() == 0 {
        to_owned_string(s)
    } else {
        string_from(stripped.as_slice())
    }
}

/// `s` less a trailing `suffix`, compared ignoring ASCII case.
pub open spec fn without_suffix_ignoring_case(s: Seq<char>, suffix: Seq<char>) -> Option<Seq<char>> {
    if s.len() >= suffix.len() && eq_ignore_ascii_case(
        s.subrange(s.len() - suffix.len(), s.len() as int),
        suffix,
    ) {
        Some(s.subrange(0, s.len() - suffix.len()))
    } else {
        None
    }
}

/// The album without a catalog `- <suffix>`, if it carries one and anything
/// is left in front of it.
pub open spec fn album_without(s: Seq<char>, suffix: Seq<char>) -> Option<Seq<char>> {
    match without_suffix_ignoring_case(trim_end(s), suffix) {
        None => None,
        Some(head) => {
            let head = trim_end(head);
            if head.len() > 0 && head.last() == '-' {
                let head = trim(head.drop_last());
                if head.len() > 0 { Some(head) } else { None }
            } else {
                None
            }
        },
    }
}

/// Drops a trailing `- Single` or `- EP`; otherwise the album trimmed.
pub open spec fn stripped_album_suffix(s: Seq<char>) -> Seq<char> {
    match album_without(s, "single"@) {
        Some(h) => h,
        None => match album_without(s, "ep"@) {
            Some(h) => h,
            None => trim(s),
        },
    }
}

fn album_without_exec(s: &[char], suffix: &[char]) -> (r: Option<Vec<char>>)
    ensures
        match r {
            Some(v) => album_without(s@, suffix@) == Some(v@),
            None => album_without(s@, suffix@) is None,
        },
{
    let mut trimmed = slice_chars(s, 0, s.len());
    proof {
        assert(s@.subrange(0, s@.len() as int) =~= s@);
    }
    pop_trailing_whitespace(&mut trimmed);
    let n = trimmed.len();
    if n < suffix.len() {
        return None;
    }
    let tail = slice_chars(trimmed.as_slice(), n - suffix.len(), n);
    if !chars_eq_ignore_ascii_case(tail.as_slice(), suffix) {
        return None;
    }
    let mut head = slice_chars(trimmed.as_slice(), 0, n - suffix.len());
    pop_trailing_whitespace(&mut head);
    if head.len() == 0 || head[head.len() - 1] != '-' {
        return None;
    }
    let ghost before = head@;
    head.pop();
    proof {
        assert(head@ =~= before.drop_last());
    }
    let result = trim_chars(head.as_slice());
    if result.len() == 0 {
        None
    } else {
        Some(result)
    }
}

/// Drops a trailing `- Single` or `- EP`, which the catalog appends to album
/// names and players usually do not. Returns the input, trimmed, when
/// nothing is left.
pub fn strip_album_suffix(s: &str) -> (r: String)
    ensures
        r@ == stripped_album_suffix(s@),
{
    let chars = chars_of(s);
    let single = chars_of("single");
    let ep = chars_of("ep");
    match album_without_exec(chars.as_slice(), single.as_slice()) {
        Some(h) => string_from(h.as_slice()),
        None => match album_without_exec(chars.as_slice(), ep.as_slice()) {
            Some(h) => string_from(h.as_slice()),
            None => {
                let t = trim_chars(chars.as_slice());
                string_from(t.as_slice())
            },
        },
    }
}

// MARK: - The request

/// Whether a byte is in the unreserved set that percent-encoding leaves as it is.
pub open spec fn unreserved(b: u8) -> bool {
    (65 <= b <= 90) || (97 <= b <= 122) || (48 <= b <= 57) || b == 45 || b == 95 || b == 46 || b == 126
}

/// An upper-case hexadecimal digit.
pub open spec fn hex_digit(d: u8) -> char {
    if d < 10 {
        ((48 + d) as u8) as char
    } else {
        ((55 + d) as u8) as char
    }
}

/// Every byte outside the unreserved set written as `%XX`.
pub open spec fn percent_encoded(bytes: Seq<u8>) -> Seq<char>
    decreases bytes.len(),
{
    if bytes.len() == 0 {
        Seq::empty()
    } else {
        let b = bytes.last();
        let tail = if unreserved(b) {
            seq![b as char]
        } else {
            seq!['%', hex_digit(b / 16), hex_digit(b % 16)]
        };
        percent_encoded(bytes.drop_last()) + tail
    }
}

fn hex(d: u8) -> (c: char)
    requires
        d < 16,
    ensures
        c == hex_digit(d),
{
    if d < 10 {
        (48u8 + d) as char
    } else {
        (55u8 + d) as char
    }
}

/// Percent-encodes the UTF-8 bytes of `s`, so a term containing `&`, `#` or a
/// space cannot reshape the query.
pub fn percent_encode(s: &str) -> (r: String)
    ensures
        r@ == percent_encoded(s.spec_bytes()),
{
    let bytes = s.as_bytes();
    let mut out = String::new();
    let mut i: usize = 0;
    while i < bytes.len()
        invariant
            i <= bytes@.len(),
            bytes@ == s.spec_bytes(),
            out@ == percent_encoded(bytes@.subrange(0, i as int)),
        decreases bytes@.len() - i,
    {
        let b = bytes[i];
        proof {
            assert(bytes@.subrange(0, i + 1).drop_last() =~= bytes@.subrange(0, i as int));
        }
        if (65 <= b && b <= 90) || (97 <= b && b <= 122) || (48 <= b && b <= 57) || b == 45 || b == 95
            || b == 46 || b == 126 {
            push_char(&mut out, b as char);
        } else {
            push_char(&mut out, '%');
            push_char(&mut out, hex(b / 16));
            push_char(&mut out, hex(b % 16));
        }
        i = i + 1;
        proof {
            assert(out@ =~= percent_encoded(bytes@.subrange(0, i as int)));
        }
    }
    proof {
        assert(bytes@.subrange(0, bytes@.len() as int) =~= bytes@);
    }
    out
}

/// The URL for one lookup: the plain title and the artist as the term, ten
/// results, and `country` as the storefront.
pub open spec fn search_url_of(name: Seq<char>, artist: Seq<char>, country: Seq<char>) -> Seq<char> {
    let term = trim(stripped_featuring(name) + " "@ + artist);
    "https://itunes.apple.com/search?term="@ + percent_encoded(vstd::utf8::encode_utf8(term))
        + "&media=music&entity=song&limit=10&country="@ + percent_encoded(vstd::utf8::encode_utf8(country))
}

/// The URL for one lookup. `country` picks the storefront, which decides both
/// which catalog is searched and which regional URLs come back.
pub fn search_url(name: &str, artist: &str, country: &str) -> (r: String)
    ensures
        r@ == search_url_of(name@, artist@, country@),
{
    let mut term = strip_featuring(name);
    push_str(&mut term, " ");
    push_str(&mut term, artist);
    let term_chars = chars_of(term.as_str());
    let trimmed = trim_chars(term_chars.as_slice());
    let trimmed_string = string_from(trimmed.as_slice());
    let mut out = to_owned_string("https://itunes.apple.com/search?term=");
    let encoded = percent_encode(trimmed_string.as_str());
    push_str(&mut out, encoded.as_str());
    push_str(&mut out, "&media=music&entity=song&limit=");
    crate::numbers::push_decimal(&mut out, RESULT_LIMIT);
    push_str(&mut out, "&country=");
    let country_encoded = percent_encode(country);
    push_str(&mut out, country_encoded.as_str());
    proof {
        reveal_strlit("10");
        reveal_strlit("&media=music&entity=song&limit=");
        reveal_strlit("&country=");
        reveal_strlit("&media=music&entity=song&limit=10&country=");
        assert(crate::numbers::decimal(10) =~= "10"@) by {
            assert(crate::numbers::decimal(1) == seq![crate::numbers::digit_char(1)]);
        }
        assert("&media=music&entity=song&limit="@ + "10"@ + "&country="@
            =~= "&media=music&entity=song&limit=10&country="@);
        assert(term@ == stripped_featuring(name@) + " "@ + artist@);
        assert(trimmed_string@ == trim(stripped_featuring(name@) + " "@ + artist@));
        assert(out@ =~= search_url_of(name@, artist@, country@));
    }
    out
}

// MARK: - From a result to the catalog

/// `artworkUrl100` is a 100px thumbnail. Discord renders the large image far
/// bigger than that, and the same URL serves any size Apple has.
pub const ARTWORK_SOURCE_SIZE: &'static str = "100x100bb";

pub const ARTWORK_WANTED_SIZE: &'static str = "512x512bb";

/// The artwork URL with every thumbnail size marker asked up to the large one.
pub open spec fn upscaled_artwork(url: Option<Seq<char>>) -> Option<Seq<char>> {
    match url {
        Some(u) => Some(replaced(u, ARTWORK_SOURCE_SIZE@, ARTWORK_WANTED_SIZE@)),
        None => None,
    }
}

/// The catalog links of one result, with its artwork upscaled.
pub fn catalog_from(result: &SearchResult) -> (c: CatalogInfo)
    ensures
        opt_view(c.song_url) == opt_view(result.track_view_url),
        opt_view(c.artist_url) == opt_view(result.artist_view_url),
        opt_view(c.album_url) == opt_view(result.collection_view_url),
        opt_view(c.artwork_url) == upscaled_artwork(opt_view(result.artwork_url100)),
{
    let artwork_url = match &result.artwork_url100 {
        Some(url) => {
            let chars = chars_of(url.as_str());
            let source = chars_of(ARTWORK_SOURCE_SIZE);
            let wanted = chars_of(ARTWORK_WANTED_SIZE);
            proof {
                reveal_strlit("100x100bb");
            }
            let upscaled = replace_all(chars.as_slice(), source.as_slice(), wanted.as_slice());
            Some(string_from(upscaled.as_slice()))
        },
        None => None,
    };
    CatalogInfo {
        song_url: clone_opt(&result.track_view_url),
        artist_url: clone_opt(&result.artist_view_url),
        album_url: clone_opt(&result.collection_view_url),
        artwork_url,
    }
}

// MARK: - Picking the result

/// One result, or the track being looked up, folded for comparison.
pub struct Candidate {
    pub track: String,
    pub track_no_feat: String,
    pub artist: String,
    pub album: String,
}

/// A candidate as the tiers read it.
pub struct CandidateView {
    pub track: Seq<char>,
    pub track_no_feat: Seq<char>,
    pub artist: Seq<char>,
    pub album: Seq<char>,
}

impl View for Candidate {
    type V = CandidateView;

    open spec fn view(&self) -> CandidateView {
        CandidateView {
            track: self.track@,
            track_no_feat: self.track_no_feat@,
            artist: self.artist@,
            album: self.album@,
        }
    }
}

pub open spec fn candidate_views(cs: Seq<Candidate>) -> Seq<CandidateView> {
    cs.map_values(|c: Candidate| c@)
}

/// How many tiers the matching has.
pub const TIER_COUNT: usize = 5;

/// Whether `c` agrees with the wanted track on tier `tier`, best first:
/// everything; title and artist; title without credits and artist; title;
/// title without credits.
pub open spec fn tier_holds(c: CandidateView, wanted: CandidateView, tier: int) -> bool {
    let track = c.track == wanted.track;
    let artist = c.artist == wanted.artist;
    let no_feat = c.track_no_feat == wanted.track_no_feat;
    if tier == 0 {
        track && artist && c.album == wanted.album
    } else if tier == 1 {
        track && artist
    } else if tier == 2 {
        no_feat && artist
    } else if tier == 3 {
        track
    } else {
        no_feat
    }
}

/// The first candidate from `from` on that holds on `tier`.
pub open spec fn first_in_tier(cs: Seq<CandidateView>, wanted: CandidateView, tier: int, from: int) -> Option<int>
    decreases cs.len() - from,
{
    if from < 0 || from >= cs.len() {
        None
    } else if tier_holds(cs[from], wanted, tier) {
        Some(from)
    } else {
        first_in_tier(cs, wanted, tier, from + 1)
    }
}

/// The first candidate of the best tier from `tier` on that any candidate holds on.
pub open spec fn best_from_tier(cs: Seq<CandidateView>, wanted: CandidateView, tier: int) -> Option<int>
    decreases TIER_COUNT - tier,
{
    if tier < 0 || tier >= TIER_COUNT {
        None
    } else {
        match first_in_tier(cs, wanted, tier, 0) {
            Some(i) => Some(i),
            None => best_from_tier(cs, wanted, tier + 1),
        }
    }
}

/// Which candidate the lookup takes, if any.
pub open spec fn best_candidate_index(cs: Seq<CandidateView>, wanted: CandidateView) -> Option<int> {
    best_from_tier(cs, wanted, 0)
}

fn holds_on_tier(c: &Candidate, wanted: &Candidate, tier: usize) -> (r: bool)
    ensures
        r == tier_holds(c@, wanted@, tier as int),
{
    let track = str_eq(c.track.as_str(), wanted.track.as_str());
    let artist = str_eq(c.artist.as_str(), wanted.artist.as_str());
    let no_feat = str_eq(c.track_no_feat.as_str(), wanted.track_no_feat.as_str());
    if tier == 0 {
        track && artist && str_eq(c.album.as_str(), wanted.album.as_str())
    } else if tier == 1 {
        track && artist
    } else if tier == 2 {
        no_feat && artist
    } else if tier == 3 {
        track
    } else {
        no_feat
    }
}

/// The candidate to take: the first one on the best tier any of them reaches,
/// or `None` when none agrees closely enough to be safe.
pub fn best_candidate(candidates: &[Candidate], wanted: &Candidate) -> (r: Option<usize>)
    ensures
        match r {
            Some(i) => best_candidate_index(candidate_views(candidates@), wanted@) == Some(i as int),
            None => best_candidate_index(candidate_views(candidates@), wanted@) is None,
        },
{
    let ghost cs = candidate_views(candidates@);
    let mut tier: usize = 0;
    while tier < TIER_COUNT
        invariant
            tier <= TIER_COUNT,
            cs == candidate_views(candidates@),
            best_candidate_index(cs, wanted@) == best_from_tier(cs, wanted@, tier as int),
        decreases TIER_COUNT - tier,
    {
        let mut i: usize = 0;
        while i < candidates.len()
            invariant
                i <= candidates@.len(),
                tier < TIER_COUNT,
                cs == candidate_views(candidates@),
                cs.len() == candidates@.len(),
                best_candidate_index(cs, wanted@) == best_from_tier(cs, wanted@, tier as int),
                first_in_tier(cs, wanted@, tier as int, 0) == first_in_tier(cs, wanted@, tier as int, i as int),
            decreases candidates@.len() - i,
        {
            proof {
                assert(cs[i as int] == candidates@[i as int]@);
            }
            if holds_on_tier(&candidates[i], wanted, tier) {
                return Some(i);
            }
            i = i + 1;
        }
        tier = tier + 1;
    }
    None
}

proof fn lemma_first_in_tier(cs: Seq<CandidateView>, wanted: CandidateView, tier: int, from: int)
    ensures
        first_in_tier(cs, wanted, tier, from) matches Some(i) ==> {
            &&& from <= i < cs.len()
            &&& tier_holds(cs[i], wanted, tier)
        },
        first_in_tier(cs, wanted, tier, from) is None && 0 <= from ==> forall|j: int|
            from <= j < cs.len() ==> !#[trigger] tier_holds(cs[j], wanted, tier),
    decreases cs.len() - from,
{
    if from < 0 || from >= cs.len() {
    } else if tier_holds(cs[from], wanted, tier) {
    } else {
        lemma_first_in_tier(cs, wanted, tier, from + 1);
    }
}

proof fn lemma_best_from_tier(cs: Seq<CandidateView>, wanted: CandidateView, tier: int)
    requires
        0 <= tier,
    ensures
        best_from_tier(cs, wanted, tier) matches Some(i) ==> {
            &&& 0 <= i < cs.len()
            &&& exists|found: int| tier <= found < TIER_COUNT && #[trigger] tier_holds(cs[i], wanted, found)
                && forall|better: int, j: int| tier <= better < found && 0 <= j < cs.len()
                    ==> !#[trigger] tier_holds(cs[j], wanted, better)
        },
    decreases TIER_COUNT - tier,
{
    if tier >= TIER_COUNT {
    } else {
        lemma_first_in_tier(cs, wanted, tier, 0);
        match first_in_tier(cs, wanted, tier, 0) {
            Some(i) => {
                assert(tier_holds(cs[i], wanted, tier));
            },
            None => {
                lemma_best_from_tier(cs, wanted, tier + 1);
                if let Some(i) = best_from_tier(cs, wanted, tier + 1) {
                    let found = choose|found: int| tier + 1 <= found < TIER_COUNT && #[trigger] tier_holds(
                        cs[i],
                        wanted,
                        found,
                    ) && forall|better: int, j: int| tier + 1 <= better < found && 0 <= j < cs.len()
                        ==> !#[trigger] tier_holds(cs[j], wanted, better);
                    assert forall|better: int, j: int| tier <= better < found && 0 <= j < cs.len() implies !#[trigger] tier_holds(
                        cs[j],
                        wanted,
                        better,
                    ) by {
                        if better == tier {
                        }
                    }
                    assert(tier <= found < TIER_COUNT && tier_holds(cs[i], wanted, found));
                }
            },
        }
    }
}

/// Whatever candidate is taken agrees with the wanted track on its title,
/// with or without the credits, and no candidate at all reaches a better tier
/// than the one it was taken on.
pub proof fn lemma_taken_candidate_agrees_on_the_title(cs: Seq<CandidateView>, wanted: CandidateView)
    ensures
        best_candidate_index(cs, wanted) matches Some(i) ==> {
            &&& 0 <= i < cs.len()
            &&& (cs[i].track == wanted.track || cs[i].track_no_feat == wanted.track_no_feat)
            &&& exists|tier: int| 0 <= tier < TIER_COUNT && #[trigger] tier_holds(cs[i], wanted, tier)
                && forall|better: int, j: int| 0 <= better < tier && 0 <= j < cs.len()
                    ==> !#[trigger] tier_holds(cs[j], wanted, better)
        },
{
    lemma_best_from_tier(cs, wanted, 0);
    if let Some(i) = best_candidate_index(cs, wanted) {
        let tier = choose|tier: int| 0 <= tier < TIER_COUNT && #[trigger] tier_holds(cs[i], wanted, tier)
            && forall|better: int, j: int| 0 <= better < tier && 0 <= j < cs.len()
                ==> !#[trigger] tier_holds(cs[j], wanted, better);
        assert(tier_holds(cs[i], wanted, tier));
    }
}

// MARK: - The lookup's choice

/// What an optional field reads as when it is missing.
pub open spec fn or_empty(o: Option<String>) -> Seq<char> {
    match o {
        Some(s) => s@,
        None => Seq::empty(),
    }
}

/// A result folded for comparison.
pub open spec fn candidate_of(r: SearchResult) -> CandidateView {
    CandidateView {
        track: normalized(or_empty(r.track_name)),
        track_no_feat: normalized(stripped_featuring(or_empty(r.track_name))),
        artist: normalized(or_empty(r.artist_name)),
        album: normalized(stripped_album_suffix(or_empty(r.collection_name))),
    }
}

/// The track being looked up, folded the same way.
pub open spec fn wanted_of(name: Seq<char>, artist: Seq<char>, album: Seq<char>) -> CandidateView {
    CandidateView {
        track: normalized(name),
        track_no_feat: normalized(stripped_featuring(name)),
        artist: normalized(artist),
        album: normalized(stripped_album_suffix(album)),
    }
}

fn norm_str(s: &str) -> (r: String)
    ensures
        r@ == normalized(s@),
{
    let chars = chars_of(s);
    let folded = norm(chars.as_slice());
    string_from(folded.as_slice())
}

fn field_or_empty(o: &Option<String>) -> (r: &str)
    ensures
        r@ == or_empty(*o),
{
    match o {
        Some(s) => s.as_str(),
        None => {
            proof {
                reveal_strlit("");
            }
            ""
        },
    }
}

fn candidate_from(r: &SearchResult) -> (c: Candidate)
    ensures
        c@ == candidate_of(*r),
{
    let track = field_or_empty(&r.track_name);
    let no_feat = strip_featuring(track);
    let album = strip_album_suffix(field_or_empty(&r.collection_name));
    Candidate {
        track: norm_str(track),
        track_no_feat: norm_str(no_feat.as_str()),
        artist: norm_str(field_or_empty(&r.artist_name)),
        album: norm_str(album.as_str()),
    }
}

/// The best result, or `None` when nothing agrees closely enough to be safe.
pub fn pick_best<'a>(results: &'a [SearchResult], name: &str, artist: &str, album: &str) -> (r: Option<
    &'a SearchResult,
>)
    ensures
        match best_candidate_index(results@.map_values(|x: SearchResult| candidate_of(x)), wanted_of(name@, artist@, album@)) {
            Some(i) => r == Some(&results@[i]),
            None => r is None,
        },
{
    let no_feat = strip_featuring(name);
    let plain_album = strip_album_suffix(album);
    let wanted = Candidate {
        track: norm_str(name),
        track_no_feat: norm_str(no_feat.as_str()),
        artist: norm_str(artist),
        album: norm_str(plain_album.as_str()),
    };
    // Normalising is not free, so each result is folded once rather than once
    // per tier.
    let mut candidates: Vec<Candidate> = Vec::new();
    let mut i: usize = 0;
    while i < results.len()
        invariant
            i <= results@.len(),
            candidates@.len() == i,
            forall|j: int| 0 <= j < i ==> #[trigger] candidates@[j]@ == candidate_of(results@[j]),
        decreases results@.len() - i,
    {
        candidates.push(candidate_from(&results[i]));
        i = i + 1;
    }
    proof {
        assert(candidate_views(candidates@) =~= results@.map_values(|x: SearchResult| candidate_of(x)));
        assert(wanted@ == wanted_of(name@, artist@, album@));
        lemma_taken_candidate_agrees_on_the_title(candidate_views(candidates@), wanted@);
    }
    match best_candidate(candidates.as_slice(), &wanted) {
        Some(k) => Some(&results[k]),
        None => None,
    }
}

} // verus!
