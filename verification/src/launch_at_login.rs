//! Starting with Windows: the command stored under the `Run` key, and when an
//! existing entry has drifted from where the exe is now.
use crate::strings::{
    chars_eq_ignore_ascii_case, chars_of, eq_ignore_ascii_case, push_str, slice_chars, string_from, trim, trim_chars,
};
use vstd::prelude::*;

verus! {

/// The exact string to store: the path in double quotes, so a path containing
/// spaces survives the shell's argument splitting.
pub open spec fn command_of(exe: Seq<char>) -> Seq<char> {
    seq!['"'] + exe + seq!['"']
}

pub fn command_for(exe: &str) -> (r: String)
    ensures
        r@ == command_of(exe@),
{
    let mut out = String::new();
    crate::strings::push_char(&mut out, '"');
    push_str(&mut out, exe);
    crate::strings::push_char(&mut out, '"');
    proof {
        assert(out@ =~= command_of(exe@));
    }
    out
}

/// The command trimmed, one pair of surrounding double quotes dropped, and
/// trimmed again.
pub open spec fn unquoted(command: Seq<char>) -> Seq<char> {
    let t = trim(command);
    if t.len() >= 2 && t[0] == '"' && t.last() == '"' {
        trim(t.subrange(1, t.len() - 1))
    } else {
        t
    }
}

pub fn unquote(command: &str) -> (r: String)
    ensures
        r@ == unquoted(command@),
{
    let chars = chars_of(command);
    let t = trim_chars(chars.as_slice());
    let n = t.len();
    if n >= 2 && t[0] == '"' && t[n - 1] == '"' {
        let inner = slice_chars(t.as_slice(), 1, n - 1);
        let inner = trim_chars(inner.as_slice());
        string_from(inner.as_slice())
    } else {
        string_from(t.as_slice())
    }
}

/// Whether the stored command has drifted from what it should be. Compared
/// ignoring ASCII case and quoting, because Windows paths are
/// case-insensitive and an entry written by an older build or by hand may be
/// unquoted while meaning the same file.
pub open spec fn drifted(stored: Seq<char>, wanted: Seq<char>) -> bool {
    !eq_ignore_ascii_case(unquoted(stored), unquoted(wanted))
}

pub fn needs_rewrite(stored: &str, wanted: &str) -> (r: bool)
    ensures
        r == drifted(stored@, wanted@),
{
    let a = unquote(stored);
    let b = unquote(wanted);
    let a = chars_of(a.as_str());
    let b = chars_of(b.as_str());
    !chars_eq_ignore_ascii_case(a.as_slice(), b.as_slice())
}

/// The registry value as decoded, without the terminators it may carry, or
/// `None` when nothing is left.
pub open spec fn stored_value_of(decoded: Seq<char>) -> Option<Seq<char>> {
    let v = without_nuls(decoded);
    if v.len() == 0 {
        None
    } else {
        Some(v)
    }
}

/// `s` with every trailing NUL removed.
pub open spec fn without_nuls(s: Seq<char>) -> Seq<char>
    decreases s.len(),
{
    if s.len() > 0 && s.last() == '\0' {
        without_nuls(s.drop_last())
    } else {
        s
    }
}

pub fn stored_value(decoded: &str) -> (r: Option<String>)
    ensures
        match r {
            Some(v) => stored_value_of(decoded@) == Some(v@),
            None => stored_value_of(decoded@) is None,
        },
{
    let mut chars = chars_of(decoded);
    while chars.len() > 0 && chars[chars.len() - 1] == '\0'
        invariant
            without_nuls(chars@) == without_nuls(decoded@),
        decreases chars@.len(),
    {
        let ghost before = chars@;
        chars.pop();
        proof {
            assert(chars@ =~= before.drop_last());
        }
    }
    if chars.len() == 0 {
        None
    } else {
        Some(string_from(chars.as_slice()))
    }
}

// MARK: - Laws

/// An entry never drifts from itself, and drift does not depend on which side
/// is the stored one.
pub proof fn lemma_drift_is_reflexive_and_symmetric(a: Seq<char>, b: Seq<char>)
    ensures
        !drifted(a, a),
        drifted(a, b) == drifted(b, a),
{
    assert(eq_ignore_ascii_case(unquoted(a), unquoted(a)));
    if eq_ignore_ascii_case(unquoted(a), unquoted(b)) {
        assert(eq_ignore_ascii_case(unquoted(b), unquoted(a)));
    }
    if eq_ignore_ascii_case(unquoted(b), unquoted(a)) {
        assert(eq_ignore_ascii_case(unquoted(a), unquoted(b)));
    }
}

/// Quoting a path is undone by the comparison: the stored command reads as
/// the path itself, trimmed.
pub proof fn lemma_quoting_is_undone(exe: Seq<char>)
    ensures
        unquoted(command_of(exe)) == trim(exe),
{
    let c = command_of(exe);
    assert(c[0] == '"' && c.last() == '"');
    assert(trim(c) == c);
    assert(c.subrange(1, c.len() - 1) =~= exe);
}

} // verus!
