//! Text as sequences of characters: the handful of `str` operations the rest
//! of the library needs, each stated over `Seq<char>` and proved.
use vstd::prelude::*;
use vstd::string::*;

verus! {

/// Unicode's `White_Space` property, which is what `char::is_whitespace`
/// answers: a fixed list of twenty-five code points.
pub open spec fn is_whitespace(c: char) -> bool {
    let u = c as u32;
    ||| 0x09 <= u <= 0x0D
    ||| u == 0x20
    ||| u == 0x85
    ||| u == 0xA0
    ||| u == 0x1680
    ||| 0x2000 <= u <= 0x200A
    ||| u == 0x2028
    ||| u == 0x2029
    ||| u == 0x202F
    ||| u == 0x205F
    ||| u == 0x3000
}

/// `char::is_whitespace`.
pub fn char_is_whitespace(c: char) -> (b: bool)
    ensures
        b == is_whitespace(c),
{
    let u = c as u32;
    (0x09 <= u && u <= 0x0D) || u == 0x20 || u == 0x85 || u == 0xA0 || u == 0x1680 || (0x2000 <= u
        && u <= 0x200A) || u == 0x2028 || u == 0x2029 || u == 0x202F || u == 0x205F || u == 0x3000
}

/// The general category `Cc`, which is what `char::is_control` answers.
pub open spec fn is_control(c: char) -> bool {
    let u = c as u32;
    u <= 0x1F || (0x7F <= u && u <= 0x9F)
}

/// `char::is_control`.
pub fn char_is_control(c: char) -> (b: bool)
    ensures
        b == is_control(c),
{
    let u = c as u32;
    u <= 0x1F || (0x7F <= u && u <= 0x9F)
}

/// ASCII upper case folded to lower case; everything else unchanged.
pub open spec fn ascii_lower(c: char) -> char {
    if 'A' <= c && c <= 'Z' {
        ((c as u32) + 32) as char
    } else {
        c
    }
}

/// `char::to_ascii_lowercase`.
pub fn char_to_ascii_lower(c: char) -> (r: char)
    ensures
        r == ascii_lower(c),
{
    if 'A' <= c && c <= 'Z' {
        let b = (c as u32 + 32) as u8;
        b as char
    } else {
        c
    }
}

/// Whether two characters are equal once ASCII case is ignored.
pub open spec fn eq_ignore_ascii_case_char(a: char, b: char) -> bool {
    ascii_lower(a) == ascii_lower(b)
}

/// Whether two sequences are equal once ASCII case is ignored.
pub open spec fn eq_ignore_ascii_case(a: Seq<char>, b: Seq<char>) -> bool {
    &&& a.len() == b.len()
    &&& forall|i: int| 0 <= i < a.len() ==> #[trigger] ascii_lower(a[i]) == ascii_lower(b[i])
}

/// Whether `s` begins with `prefix`, ignoring ASCII case.
pub open spec fn starts_with_ignore_ascii_case(s: Seq<char>, prefix: Seq<char>) -> bool {
    prefix.len() <= s.len() && eq_ignore_ascii_case(s.subrange(0, prefix.len() as int), prefix)
}

/// Whether `s` begins with `prefix`.
pub open spec fn starts_with(s: Seq<char>, prefix: Seq<char>) -> bool {
    prefix.len() <= s.len() && s.subrange(0, prefix.len() as int) == prefix
}

/// Whether `s` ends with `suffix`.
pub open spec fn ends_with(s: Seq<char>, suffix: Seq<char>) -> bool {
    suffix.len() <= s.len() && s.subrange(s.len() - suffix.len(), s.len() as int) == suffix
}

/// The characters of each string.
pub open spec fn views_of(v: Seq<String>) -> Seq<Seq<char>> {
    v.map_values(|s: String| s@)
}

/// `s` with leading whitespace removed.
pub open spec fn trim_start(s: Seq<char>) -> Seq<char>
    decreases s.len(),
{
    if s.len() > 0 && is_whitespace(s[0]) {
        trim_start(s.drop_first())
    } else {
        s
    }
}

/// `s` with trailing whitespace removed.
pub open spec fn trim_end(s: Seq<char>) -> Seq<char>
    decreases s.len(),
{
    if s.len() > 0 && is_whitespace(s.last()) {
        trim_end(s.drop_last())
    } else {
        s
    }
}

/// `str::trim`: whitespace removed from both ends.
pub open spec fn trim(s: Seq<char>) -> Seq<char> {
    trim_end(trim_start(s))
}

/// The characters of `s`, as a vector.
pub fn chars_of(s: &str) -> (v: Vec<char>)
    ensures
        v@ == s@,
{
    let n = s.unicode_len();
    let mut v: Vec<char> = Vec::new();
    let mut i: usize = 0;
    while i < n
        invariant
            n == s@.len(),
            i <= n,
            v@ == s@.subrange(0, i as int),
        decreases n - i,
    {
        let c = s.get_char(i);
        v.push(c);
        i = i + 1;
        proof {
            assert(v@ =~= s@.subrange(0, i as int));
        }
    }
    proof {
        assert(v@ =~= s@);
    }
    v
}

/// Calls `String::push`, which std documents as appending `c` to the end of
/// the string: the characters after the call are the ones before it, then `c`.
#[verifier::external_body]
pub(crate) fn push_char(s: &mut String, c: char)
    ensures
        final(s)@ == old(s)@.push(c),
{
    s.push(c);
}

/// `String::push_str`.
pub fn push_str(s: &mut String, t: &str)
    ensures
        final(s)@ == old(s)@ + t@,
{
    s.append(t);
}

/// A `String` holding exactly `v`.
pub fn string_from(v: &[char]) -> (s: String)
    ensures
        s@ == v@,
{
    let mut s = String::new();
    let mut i: usize = 0;
    while i < v.len()
        invariant
            i <= v@.len(),
            s@ == v@.subrange(0, i as int),
        decreases v@.len() - i,
    {
        push_char(&mut s, v[i]);
        i = i + 1;
        proof {
            assert(s@ =~= v@.subrange(0, i as int));
        }
    }
    proof {
        assert(s@ =~= v@);
    }
    s
}

/// An owned copy of `s`.
pub fn to_owned_string(s: &str) -> (r: String)
    ensures
        r@ == s@,
{
    s.to_owned()
}

/// `a == b` for two slices of characters.
pub fn chars_eq(a: &[char], b: &[char]) -> (r: bool)
    ensures
        r == (a@ == b@),
{
    if a.len() != b.len() {
        return false;
    }
    let mut i: usize = 0;
    while i < a.len()
        invariant
            a@.len() == b@.len(),
            i <= a@.len(),
            forall|j: int| 0 <= j < i ==> a@[j] == b@[j],
        decreases a@.len() - i,
    {
        if a[i] != b[i] {
            return false;
        }
        i = i + 1;
    }
    proof {
        assert(a@ =~= b@);
    }
    true
}

/// `a == b` for two string slices, compared character by character.
pub fn str_eq(a: &str, b: &str) -> (r: bool)
    ensures
        r == (a@ == b@),
{
    let va = chars_of(a);
    let vb = chars_of(b);
    chars_eq(va.as_slice(), vb.as_slice())
}

/// Whether `s` begins with `prefix` once ASCII case is ignored.
pub fn chars_start_with_ignore_ascii_case(s: &[char], prefix: &[char]) -> (r: bool)
    ensures
        r == starts_with_ignore_ascii_case(s@, prefix@),
{
    if prefix.len() > s.len() {
        return false;
    }
    let mut i: usize = 0;
    while i < prefix.len()
        invariant
            prefix@.len() <= s@.len(),
            i <= prefix@.len(),
            forall|j: int| 0 <= j < i ==> #[trigger] ascii_lower(s@[j]) == ascii_lower(prefix@[j]),
        decreases prefix@.len() - i,
    {
        if char_to_ascii_lower(s[i]) != char_to_ascii_lower(prefix[i]) {
            proof {
                assert(s@.subrange(0, prefix@.len() as int)[i as int] == s@[i as int]);
            }
            return false;
        }
        i = i + 1;
    }
    proof {
        assert forall|j: int| 0 <= j < prefix@.len() implies #[trigger] ascii_lower(
            s@.subrange(0, prefix@.len() as int)[j],
        ) == ascii_lower(prefix@[j]) by {
            assert(s@.subrange(0, prefix@.len() as int)[j] == s@[j]);
        }
    }
    true
}

/// Whether two slices are equal once ASCII case is ignored.
pub fn chars_eq_ignore_ascii_case(a: &[char], b: &[char]) -> (r: bool)
    ensures
        r == eq_ignore_ascii_case(a@, b@),
{
    if a.len() != b.len() {
        return false;
    }
    let r = chars_start_with_ignore_ascii_case(a, b);
    proof {
        assert(a@.subrange(0, b@.len() as int) =~= a@);
    }
    r
}

/// Whether `s` begins with `prefix`.
pub fn chars_start_with(s: &[char], prefix: &[char]) -> (r: bool)
    ensures
        r == starts_with(s@, prefix@),
{
    if prefix.len() > s.len() {
        return false;
    }
    let mut i: usize = 0;
    while i < prefix.len()
        invariant
            prefix@.len() <= s@.len(),
            i <= prefix@.len(),
            forall|j: int| 0 <= j < i ==> s@[j] == prefix@[j],
        decreases prefix@.len() - i,
    {
        if s[i] != prefix[i] {
            proof {
                assert(s@.subrange(0, prefix@.len() as int)[i as int] == s@[i as int]);
            }
            return false;
        }
        i = i + 1;
    }
    proof {
        assert(s@.subrange(0, prefix@.len() as int) =~= prefix@);
    }
    true
}

/// Whether `s` ends with `suffix`.
pub fn chars_end_with(s: &[char], suffix: &[char]) -> (r: bool)
    ensures
        r == ends_with(s@, suffix@),
{
    if suffix.len() > s.len() {
        return false;
    }
    let n = s.len();
    let off = n - suffix.len();
    let mut i: usize = 0;
    while i < suffix.len()
        invariant
            n == s@.len(),
            suffix@.len() <= s@.len(),
            off == s@.len() - suffix@.len(),
            i <= suffix@.len(),
            forall|j: int| 0 <= j < i ==> s@[off + j] == suffix@[j],
        decreases suffix@.len() - i,
    {
        if s[off + i] != suffix[i] {
            proof {
                assert(s@.subrange(off as int, s@.len() as int)[i as int] == s@[off + i]);
            }
            return false;
        }
        i = i + 1;
    }
    proof {
        assert(s@.subrange(off as int, s@.len() as int) =~= suffix@);
    }
    true
}

/// Dropping leading whitespace is the same as dropping it from any point up to
/// which everything was whitespace.
proof fn lemma_trim_start_skip(s: Seq<char>, i: int)
    requires
        0 <= i <= s.len(),
        forall|j: int| 0 <= j < i ==> is_whitespace(#[trigger] s[j]),
    ensures
        trim_start(s) == trim_start(s.subrange(i, s.len() as int)),
    decreases i,
{
    if i > 0 {
        assert(s.drop_first().subrange(i - 1, s.drop_first().len() as int) =~= s.subrange(
            i,
            s.len() as int,
        ));
        assert forall|j: int| 0 <= j < i - 1 implies is_whitespace(#[trigger] s.drop_first()[j]) by {
            assert(s.drop_first()[j] == s[j + 1]);
        }
        lemma_trim_start_skip(s.drop_first(), i - 1);
    } else {
        assert(s.subrange(0, s.len() as int) =~= s);
    }
}

/// Dropping trailing whitespace is the same as dropping it from any point
/// after which everything was whitespace.
proof fn lemma_trim_end_take(s: Seq<char>, i: int)
    requires
        0 <= i <= s.len(),
        forall|j: int| i <= j < s.len() ==> is_whitespace(#[trigger] s[j]),
    ensures
        trim_end(s) == trim_end(s.subrange(0, i)),
    decreases s.len() - i,
{
    if i < s.len() {
        assert(s.drop_last().subrange(0, i) =~= s.subrange(0, i));
        assert forall|j: int| i <= j < s.drop_last().len() implies is_whitespace(
            #[trigger] s.drop_last()[j],
        ) by {
            assert(s.drop_last()[j] == s[j]);
        }
        lemma_trim_end_take(s.drop_last(), i);
    } else {
        assert(s.subrange(0, i) =~= s);
    }
}

/// The bounds `[lo, hi)` of `v` that `trim_start` and `trim_end` leave.
pub fn trim_bounds(v: &[char]) -> (r: (usize, usize))
    ensures
        r.0 <= r.1 <= v@.len(),
        v@.subrange(r.0 as int, v@.len() as int) == trim_start(v@),
        v@.subrange(r.0 as int, r.1 as int) == trim(v@),
{
    let mut lo: usize = 0;
    while lo < v.len() && char_is_whitespace(v[lo])
        invariant
            lo <= v@.len(),
            forall|j: int| 0 <= j < lo ==> is_whitespace(#[trigger] v@[j]),
        decreases v@.len() - lo,
    {
        lo = lo + 1;
    }
    proof {
        lemma_trim_start_skip(v@, lo as int);
        let rest = v@.subrange(lo as int, v@.len() as int);
        if rest.len() > 0 {
            assert(rest[0] == v@[lo as int]);
        }
    }
    let mut hi: usize = v.len();
    while hi > lo && char_is_whitespace(v[hi - 1])
        invariant
            lo <= hi <= v@.len(),
            forall|j: int| hi <= j < v@.len() ==> is_whitespace(#[trigger] v@[j]),
        decreases hi,
    {
        hi = hi - 1;
    }
    proof {
        let rest = v@.subrange(lo as int, v@.len() as int);
        assert(trim_start(v@) == rest);
        assert forall|j: int| hi - lo <= j < rest.len() implies is_whitespace(#[trigger] rest[j]) by {
            assert(rest[j] == v@[lo + j]);
        }
        lemma_trim_end_take(rest, hi - lo);
        assert(rest.subrange(0, hi - lo) =~= v@.subrange(lo as int, hi as int));
        let kept = v@.subrange(lo as int, hi as int);
        if kept.len() > 0 {
            assert(kept.last() == v@[hi - 1]);
        }
    }
    (lo, hi)
}

/// `str::trim`, as characters.
pub fn trim_chars(v: &[char]) -> (r: Vec<char>)
    ensures
        r@ == trim(v@),
{
    let (lo, hi) = trim_bounds(v);
    let mut out: Vec<char> = Vec::new();
    let mut i = lo;
    while i < hi
        invariant
            lo <= i <= hi <= v@.len(),
            out@ == v@.subrange(lo as int, i as int),
        decreases hi - i,
    {
        out.push(v[i]);
        i = i + 1;
        proof {
            assert(out@ =~= v@.subrange(lo as int, i as int));
        }
    }
    out
}

/// The characters `v[lo..hi]`, copied.
pub fn slice_chars(v: &[char], lo: usize, hi: usize) -> (r: Vec<char>)
    requires
        lo <= hi <= v@.len(),
    ensures
        r@ == v@.subrange(lo as int, hi as int),
{
    let mut out: Vec<char> = Vec::new();
    let mut i = lo;
    while i < hi
        invariant
            lo <= i <= hi <= v@.len(),
            out@ == v@.subrange(lo as int, i as int),
        decreases hi - i,
    {
        out.push(v[i]);
        i = i + 1;
        proof {
            assert(out@ =~= v@.subrange(lo as int, i as int));
        }
    }
    out
}

/// `a` followed by `b`.
pub fn concat_chars(a: &[char], b: &[char]) -> (r: Vec<char>)
    ensures
        r@ == a@ + b@,
{
    let mut out = slice_chars(a, 0, a.len());
    let mut i: usize = 0;
    while i < b.len()
        invariant
            i <= b@.len(),
            out@ == a@ + b@.subrange(0, i as int),
        decreases b@.len() - i,
    {
        out.push(b[i]);
        i = i + 1;
        proof {
            assert(out@ =~= a@ + b@.subrange(0, i as int));
        }
    }
    proof {
        assert(b@.subrange(0, b@.len() as int) =~= b@);
        assert(a@.subrange(0, a@.len() as int) =~= a@);
    }
    out
}


/// Whether `s` at `off` continues with exactly `part`.
pub open spec fn occurs_at(s: Seq<char>, off: int, part: Seq<char>) -> bool {
    0 <= off && off + part.len() <= s.len() && s.subrange(off, off + part.len()) == part
}

/// The first position at or after `from` where `pat` occurs in `s`.
pub open spec fn find_from(s: Seq<char>, pat: Seq<char>, from: int) -> Option<int>
    decreases s.len() + 1 - from,
{
    if from < 0 || from + pat.len() > s.len() {
        None
    } else if occurs_at(s, from, pat) {
        Some(from)
    } else {
        find_from(s, pat, from + 1)
    }
}

/// The first position where `pat` occurs in `s`, as `str::find` reports it.
pub open spec fn find(s: Seq<char>, pat: Seq<char>) -> Option<int> {
    find_from(s, pat, 0)
}

/// A position `find_from` reports is one where the pattern occurs, at or
/// after where the search began, and the pattern occurs nowhere before it.
pub proof fn lemma_find_occurs(s: Seq<char>, pat: Seq<char>, from: int)
    ensures
        find_from(s, pat, from) matches Some(i) ==> occurs_at(s, i, pat) && from <= i && forall|j: int|
            from <= j < i ==> !occurs_at(s, j, pat),
        find_from(s, pat, from) is None && 0 <= from ==> forall|j: int| from <= j ==> !occurs_at(s, j, pat),
    decreases s.len() + 1 - from,
{
    if from < 0 || from + pat.len() > s.len() {
    } else if occurs_at(s, from, pat) {
    } else {
        lemma_find_occurs(s, pat, from + 1);
    }
}

/// Whether `s` at `off` continues with exactly `part`.
pub fn chars_occur_at(s: &[char], off: usize, part: &[char]) -> (r: bool)
    ensures
        r == occurs_at(s@, off as int, part@),
{
    let n = s.len();
    if off > n || part.len() > n - off {
        return false;
    }
    let mut i: usize = 0;
    while i < part.len()
        invariant
            n == s@.len(),
            off + part@.len() <= s@.len(),
            i <= part@.len(),
            forall|j: int| 0 <= j < i ==> s@[off + j] == part@[j],
        decreases part@.len() - i,
    {
        if s[off + i] != part[i] {
            proof {
                assert(s@.subrange(off as int, off + part@.len())[i as int] == s@[off + i]);
            }
            return false;
        }
        i = i + 1;
    }
    proof {
        assert(s@.subrange(off as int, off + part@.len()) =~= part@);
    }
    true
}

/// The first position where `pat` occurs in `s`.
pub fn find_chars(s: &[char], pat: &[char]) -> (r: Option<usize>)
    ensures
        match r {
            Some(i) => find(s@, pat@) == Some(i as int),
            None => find(s@, pat@) is None,
        },
{
    let n = s.len();
    if pat.len() > n {
        return None;
    }
    if pat.len() == 0 {
        proof {
            assert(s@.subrange(0, 0) =~= pat@);
        }
        return Some(0);
    }
    let last = n - pat.len();
    let mut i: usize = 0;
    while i <= last
        invariant
            n == s@.len(),
            last + pat@.len() == n,
            pat@.len() > 0,
            i <= last + 1,
            find_from(s@, pat@, 0) == find_from(s@, pat@, i as int),
        decreases last + 1 - i,
    {
        if chars_occur_at(s, i, pat) {
            return Some(i);
        }
        i = i + 1;
    }
    None
}

/// Whether `c` occurs anywhere in `s`.
pub open spec fn contains_char(s: Seq<char>, c: char) -> bool {
    exists|i: int| 0 <= i < s.len() && s[i] == c
}

/// The first position of `c` in `s`.
pub fn position_of(s: &[char], c: char) -> (r: Option<usize>)
    ensures
        match r {
            Some(i) => i < s@.len() && s@[i as int] == c && forall|j: int| 0 <= j < i ==> s@[j] != c,
            None => !contains_char(s@, c),
        },
{
    let mut i: usize = 0;
    while i < s.len()
        invariant
            i <= s@.len(),
            forall|j: int| 0 <= j < i ==> s@[j] != c,
        decreases s@.len() - i,
    {
        if s[i] == c {
            return Some(i);
        }
        i = i + 1;
    }
    None
}


/// `s` from `i` on with every occurrence of `from` replaced by `to`, matches
/// taken left to right and never overlapping, as `str::replace` does.
pub open spec fn replaced_from(s: Seq<char>, from: Seq<char>, to: Seq<char>, i: int) -> Seq<char>
    decreases s.len() - i,
{
    if i < 0 || i >= s.len() {
        Seq::empty()
    } else if from.len() > 0 && occurs_at(s, i, from) {
        to + replaced_from(s, from, to, i + from.len())
    } else {
        seq![s[i]] + replaced_from(s, from, to, i + 1)
    }
}

pub open spec fn replaced(s: Seq<char>, from: Seq<char>, to: Seq<char>) -> Seq<char> {
    replaced_from(s, from, to, 0)
}

/// Every occurrence of the non-empty `from` in `s` replaced by `to`.
pub fn replace_all(s: &[char], from: &[char], to: &[char]) -> (r: Vec<char>)
    requires
        from@.len() > 0,
    ensures
        r@ == replaced(s@, from@, to@),
{
    let mut out: Vec<char> = Vec::new();
    let mut i: usize = 0;
    while i < s.len()
        invariant
            i <= s@.len(),
            from@.len() > 0,
            out@ + replaced_from(s@, from@, to@, i as int) == replaced(s@, from@, to@),
        decreases s@.len() - i,
    {
        let ghost before = out@;
        if chars_occur_at(s, i, from) {
            let mut j: usize = 0;
            while j < to.len()
                invariant
                    j <= to@.len(),
                    out@ == before + to@.subrange(0, j as int),
                decreases to@.len() - j,
            {
                out.push(to[j]);
                j = j + 1;
                proof {
                    assert(out@ =~= before + to@.subrange(0, j as int));
                }
            }
            proof {
                assert(to@.subrange(0, to@.len() as int) =~= to@);
                assert(out@ + replaced_from(s@, from@, to@, i + from@.len()) =~= before
                    + replaced_from(s@, from@, to@, i as int));
            }
            i = i + from.len();
        } else {
            out.push(s[i]);
            proof {
                assert(out@ + replaced_from(s@, from@, to@, i + 1) =~= before
                    + replaced_from(s@, from@, to@, i as int));
            }
            i = i + 1;
        }
    }
    proof {
        assert(out@ + replaced_from(s@, from@, to@, i as int) =~= out@);
    }
    out
}


/// The first position at or after `i` where `c` stands in `s`.
pub open spec fn first_index_from(s: Seq<char>, c: char, i: int) -> Option<int>
    decreases s.len() - i,
{
    if i < 0 || i >= s.len() {
        None
    } else if s[i] == c {
        Some(i)
    } else {
        first_index_from(s, c, i + 1)
    }
}

/// The first position of `c` in `s`.
pub open spec fn first_index_of(s: Seq<char>, c: char) -> Option<int> {
    first_index_from(s, c, 0)
}

/// A position `first_index_from` reports holds `c`, lies at or after `i`,
/// and no earlier position from `i` on holds it.
pub proof fn lemma_first_index_from(s: Seq<char>, c: char, i: int)
    ensures
        first_index_from(s, c, i) matches Some(k) ==> i <= k < s.len() && s[k] == c && forall|j: int|
            i <= j < k ==> s[j] != c,
        first_index_from(s, c, i) is None && 0 <= i ==> forall|j: int| i <= j < s.len() ==> s[j] != c,
    decreases s.len() - i,
{
    if i < 0 || i >= s.len() {
    } else if s[i] == c {
    } else {
        lemma_first_index_from(s, c, i + 1);
    }
}

/// The first position of `c` in `s`, as `str::find` with a `char` gives it.
pub fn index_of_char(s: &[char], c: char) -> (r: Option<usize>)
    ensures
        match r {
            Some(i) => first_index_of(s@, c) == Some(i as int),
            None => first_index_of(s@, c) is None,
        },
{
    let mut i: usize = 0;
    while i < s.len()
        invariant
            i <= s@.len(),
            first_index_of(s@, c) == first_index_from(s@, c, i as int),
        decreases s@.len() - i,
    {
        if s[i] == c {
            return Some(i);
        }
        i = i + 1;
    }
    None
}

/// `s` cut at every `c`, as `str::split` with a `char` yields it: always at
/// least one piece, and an empty one on either side of a leading or trailing `c`.
pub open spec fn split_pieces(s: Seq<char>, c: char) -> Seq<Seq<char>>
    decreases s.len(),
{
    match first_index_of(s, c) {
        None => seq![s],
        Some(k) => {
            proof {
                lemma_first_index_from(s, c, 0);
            }
            seq![s.take(k)] + split_pieces(s.skip(k + 1), c)
        },
    }
}

pub open spec fn char_vec_views(v: Seq<Vec<char>>) -> Seq<Seq<char>> {
    v.map_values(|x: Vec<char>| x@)
}

/// `s` cut at every `c`.
pub fn split_chars(s: &[char], c: char) -> (r: Vec<Vec<char>>)
    ensures
        char_vec_views(r@) == split_pieces(s@, c),
{
    let mut out: Vec<Vec<char>> = Vec::new();
    let mut rest = slice_chars(s, 0, s.len());
    proof {
        assert(rest@ =~= s@);
    }
    loop
        invariant
            char_vec_views(out@) + split_pieces(rest@, c) == split_pieces(s@, c),
        decreases rest@.len(),
    {
        let ghost before = out@;
        match index_of_char(rest.as_slice(), c) {
            None => {
                out.push(rest);
                proof {
                    assert(char_vec_views(out@) =~= char_vec_views(before) + seq![out@.last()@]);
                }
                return out;
            },
            Some(k) => {
                proof {
                    lemma_first_index_from(rest@, c, 0);
                }
                let head = slice_chars(rest.as_slice(), 0, k);
                let tail = slice_chars(rest.as_slice(), k + 1, rest.len());
                proof {
                    assert(head@ =~= rest@.take(k as int));
                    assert(tail@ =~= rest@.skip(k + 1));
                }
                out.push(head);
                proof {
                    assert(char_vec_views(out@) =~= char_vec_views(before) + seq![rest@.take(k as int)]);
                }
                rest = tail;
            },
        }
    }
}

} // verus!
