//! Cutting a string to a length without cutting a character in half.
//!
//! A cut at a fixed scalar count can land inside a character — a family emoji
//! is seven scalars joined by ZWJ — leaving a dangling joiner or a bare
//! combining mark. This drops whatever the cut left incomplete.
use crate::strings::chars_of;
use vstd::prelude::*;
use vstd::string::*;

verus! {

/// The zero-width joiner.
pub const ZWJ: char = '\u{200D}';

/// Whether `c` only exists as part of the character before it: a hand-written
/// table covering what turns up in track titles and button labels. Regional
/// indicators are deliberately absent, so a complete flag on the limit stays.
pub open spec fn is_continuation(c: char) -> bool {
    let u = c as u32;
    ||| u == 0x200D
    ||| 0xFE00 <= u <= 0xFE0F
    ||| 0x1F3FB <= u <= 0x1F3FF
    ||| 0x0300 <= u <= 0x036F
    ||| 0x1AB0 <= u <= 0x1AFF
    ||| 0x1DC0 <= u <= 0x1DFF
    ||| 0x20D0 <= u <= 0x20F0
    ||| 0xFE20 <= u <= 0xFE2F
    ||| 0xE0020 <= u <= 0xE007F
    ||| 0xE0100 <= u <= 0xE01EF
}

fn continuation(c: char) -> (b: bool)
    ensures
        b == is_continuation(c),
{
    let u = c as u32;
    u == 0x200D || (0xFE00 <= u && u <= 0xFE0F) || (0x1F3FB <= u && u <= 0x1F3FF) || (0x0300 <= u
        && u <= 0x036F) || (0x1AB0 <= u && u <= 0x1AFF) || (0x1DC0 <= u && u <= 0x1DFF) || (0x20D0
        <= u && u <= 0x20F0) || (0xFE20 <= u && u <= 0xFE2F) || (0xE0020 <= u && u <= 0xE007F) || (
    0xE0100 <= u && u <= 0xE01EF)
}

/// `h` with every trailing continuation removed.
pub open spec fn drop_trailing_continuations(h: Seq<char>) -> Seq<char>
    decreases h.len(),
{
    if h.len() > 0 && is_continuation(h.last()) {
        drop_trailing_continuations(h.drop_last())
    } else {
        h
    }
}

/// `h` with every trailing zero-width joiner removed.
pub open spec fn drop_trailing_joiners(h: Seq<char>) -> Seq<char>
    decreases h.len(),
{
    if h.len() > 0 && h.last() == ZWJ {
        drop_trailing_joiners(h.drop_last())
    } else {
        h
    }
}

/// What `truncate` leaves of `s`: untouched when it fits; otherwise the first
/// `max` characters, less the tail of a character the cut split (decided by
/// whether the first dropped character was a continuation), less any joiner
/// left at the end.
pub open spec fn truncated(s: Seq<char>, max: nat) -> Seq<char> {
    if s.len() <= max {
        s
    } else {
        let head = s.subrange(0, max as int);
        let kept = if is_continuation(s[max as int]) {
            drop_trailing_continuations(head)
        } else {
            head
        };
        drop_trailing_joiners(kept)
    }
}

proof fn lemma_drop_continuations_prefix(h: Seq<char>)
    ensures
        drop_trailing_continuations(h).len() <= h.len(),
        drop_trailing_continuations(h) == h.subrange(0, drop_trailing_continuations(h).len() as int),
        drop_trailing_continuations(h).len() > 0 ==> !is_continuation(
            drop_trailing_continuations(h).last(),
        ),
    decreases h.len(),
{
    if h.len() > 0 && is_continuation(h.last()) {
        lemma_drop_continuations_prefix(h.drop_last());
        let d = drop_trailing_continuations(h.drop_last());
        assert(h.drop_last().subrange(0, d.len() as int) =~= h.subrange(0, d.len() as int));
    } else {
        assert(h.subrange(0, h.len() as int) =~= h);
    }
}

proof fn lemma_drop_joiners_prefix(h: Seq<char>)
    ensures
        drop_trailing_joiners(h).len() <= h.len(),
        drop_trailing_joiners(h) == h.subrange(0, drop_trailing_joiners(h).len() as int),
        drop_trailing_joiners(h).len() > 0 ==> drop_trailing_joiners(h).last() != ZWJ,
    decreases h.len(),
{
    if h.len() > 0 && h.last() == ZWJ {
        lemma_drop_joiners_prefix(h.drop_last());
        let d = drop_trailing_joiners(h.drop_last());
        assert(h.drop_last().subrange(0, d.len() as int) =~= h.subrange(0, d.len() as int));
    } else {
        assert(h.subrange(0, h.len() as int) =~= h);
    }
}

/// The result of cutting is always a prefix of what was cut, never longer than
/// the limit, and never ends in a joiner when a cut happened.
pub proof fn lemma_truncated_is_a_short_prefix(s: Seq<char>, max: nat)
    ensures
        truncated(s, max).len() <= s.len(),
        truncated(s, max) == s.subrange(0, truncated(s, max).len() as int),
        s.len() > max ==> truncated(s, max).len() <= max,
        s.len() > max && truncated(s, max).len() > 0 ==> truncated(s, max).last() != ZWJ,
        s.len() <= max ==> truncated(s, max) == s,
{
    if s.len() <= max {
        assert(s.subrange(0, s.len() as int) =~= s);
    } else {
        let head = s.subrange(0, max as int);
        let kept = if is_continuation(s[max as int]) {
            drop_trailing_continuations(head)
        } else {
            head
        };
        lemma_drop_continuations_prefix(head);
        if !is_continuation(s[max as int]) {
            assert(head.subrange(0, head.len() as int) =~= head);
        }
        lemma_drop_joiners_prefix(kept);
        let r = drop_trailing_joiners(kept);
        assert(kept.subrange(0, r.len() as int) =~= s.subrange(0, r.len() as int));
    }
}

/// `s` cut to at most `max` characters, ending on a character boundary in the
/// sense a reader would recognise.
pub fn truncate(s: &str, max: usize) -> (r: &str)
    ensures
        r@ == truncated(s@, max as nat),
{
    let n = s.unicode_len();
    if n <= max {
        return s;
    }
    let chars = chars_of(s);
    let ghost head = s@.subrange(0, max as int);
    let mut end: usize = max;
    if continuation(chars[max]) {
        while end > 0 && continuation(chars[end - 1])
            invariant
                end <= max < chars@.len(),
                chars@ == s@,
                drop_trailing_continuations(head) == drop_trailing_continuations(
                    s@.subrange(0, end as int),
                ),
            decreases end,
        {
            proof {
                assert(s@.subrange(0, end as int).drop_last() =~= s@.subrange(0, end - 1));
            }
            end = end - 1;
        }
        proof {
            let h = s@.subrange(0, end as int);
            if end > 0 {
                assert(h.last() == chars@[end - 1]);
            }
        }
    }
    let ghost kept = s@.subrange(0, end as int);
    proof {
        if !is_continuation(s@[max as int]) {
            assert(kept == head);
        }
    }
    while end > 0 && chars[end - 1] == ZWJ
        invariant
            end <= max < chars@.len(),
            chars@ == s@,
            drop_trailing_joiners(kept) == drop_trailing_joiners(s@.subrange(0, end as int)),
        decreases end,
    {
        proof {
            assert(s@.subrange(0, end as int).drop_last() =~= s@.subrange(0, end - 1));
        }
        end = end - 1;
    }
    proof {
        let h = s@.subrange(0, end as int);
        if end > 0 {
            assert(h.last() == chars@[end - 1]);
        }
    }
    s.substring_char(0, end)
}

} // verus!
