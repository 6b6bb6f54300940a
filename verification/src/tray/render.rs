//! What a menu label becomes before it reaches a Win32 menu.
use vstd::prelude::*;

verus! {

/// Each character as a Win32 menu should receive it: `&` doubled so it is
/// drawn rather than read as a mnemonic prefix, and a tab turned into a space
/// so it cannot open the accelerator column.
pub open spec fn escaped_char(c: char) -> Seq<char> {
    if c == '&' {
        seq!['&', '&']
    } else if c == '\t' {
        seq![' ']
    } else {
        seq![c]
    }
}

pub open spec fn escaped(s: Seq<char>) -> Seq<char>
    decreases s.len(),
{
    if s.len() == 0 {
        Seq::empty()
    } else {
        escaped(s.drop_last()) + escaped_char(s.last())
    }
}

/// Neutralises the two characters Win32 reads as markup in a menu string.
/// Status rows interpolate track and artist names straight from whatever is
/// playing, so "Simon & Garfunkel" would otherwise lose its ampersand and
/// underline the G.
pub fn escape(label: &str) -> (r: String)
    ensures
        r@ == escaped(label@),
{
    let chars = crate::strings::chars_of(label);
    let mut out = String::new();
    let mut i: usize = 0;
    while i < chars.len()
        invariant
            i <= chars@.len(),
            chars@ == label@,
            out@ == escaped(chars@.subrange(0, i as int)),
        decreases chars@.len() - i,
    {
        let c = chars[i];
        proof {
            assert(chars@.subrange(0, i + 1).drop_last() =~= chars@.subrange(0, i as int));
        }
        if c == '&' {
            crate::strings::push_char(&mut out, '&');
            crate::strings::push_char(&mut out, '&');
        } else if c == '\t' {
            crate::strings::push_char(&mut out, ' ');
        } else {
            crate::strings::push_char(&mut out, c);
        }
        i = i + 1;
        proof {
            assert(out@ =~= escaped(chars@.subrange(0, i as int)));
        }
    }
    proof {
        assert(chars@.subrange(0, chars@.len() as int) =~= chars@);
    }
    out
}

/// No tab survives escaping.
pub proof fn lemma_escaped_has_no_tab(s: Seq<char>)
    ensures
        forall|i: int| 0 <= i < escaped(s).len() ==> escaped(s)[i] != '\t',
    decreases s.len(),
{
    if s.len() > 0 {
        lemma_escaped_has_no_tab(s.drop_last());
        let head = escaped(s.drop_last());
        let tail = escaped_char(s.last());
        assert forall|i: int| 0 <= i < escaped(s).len() implies escaped(s)[i] != '\t' by {
            if i < head.len() {
                assert(escaped(s)[i] == head[i]);
            } else {
                assert(escaped(s)[i] == tail[i - head.len()]);
            }
        }
    }
}

/// Text with neither `&` nor a tab is left exactly as it was.
pub proof fn lemma_plain_text_is_untouched(s: Seq<char>)
    requires
        forall|i: int| 0 <= i < s.len() ==> s[i] != '&' && s[i] != '\t',
    ensures
        escaped(s) == s,
    decreases s.len(),
{
    if s.len() > 0 {
        lemma_plain_text_is_untouched(s.drop_last());
        assert(s.drop_last().push(s.last()) =~= s);
    }
}

} // verus!
