//! Telling a real change apart from SMTC repeating itself.
use crate::portable::models::{TrackInfo, UNIT_SEPARATOR};
use crate::strings::contains_char;
use vstd::prelude::*;

verus! {

/// How far, in milliseconds, the position may differ from where it would
/// have drifted on its own before it counts as a seek.
pub const SEEK_THRESHOLD_MS: u64 = 3000;

/// Whether both readings describe the same track (or both describe none).
pub open spec fn same_track(a: Option<TrackInfo>, b: Option<TrackInfo>) -> bool {
    match (a, b) {
        (Some(a), Some(b)) => a.name@ == b.name@ && a.artist@ == b.artist@ && a.album@ == b.album@,
        (None, None) => true,
        _ => false,
    }
}

pub fn same_identity(a: Option<&TrackInfo>, b: Option<&TrackInfo>) -> (r: bool)
    ensures
        r == same_track(
            match a {
                Some(t) => Some(*t),
                None => None,
            },
            match b {
                Some(t) => Some(*t),
                None => None,
            },
        ),
{
    match (a, b) {
        (Some(a), Some(b)) => a.name == b.name && a.artist == b.artist && a.album == b.album,
        (None, None) => true,
        _ => false,
    }
}

/// Where a playing track's position should be `elapsed` later, against where
/// it was read: the distance between them, in milliseconds.
pub open spec fn position_drift(old: TrackInfo, new: TrackInfo) -> int {
    let elapsed: int = if new.position_sampled_at_ms >= old.position_sampled_at_ms {
        new.position_sampled_at_ms - old.position_sampled_at_ms
    } else {
        0
    };
    let expected = old.position_ms->0 + elapsed;
    let actual = new.position_ms->0 as int;
    if actual >= expected {
        actual - expected
    } else {
        expected - actual
    }
}

/// True when the new position is somewhere the old one could not have
/// reached by simply playing on. A clock that appears to run backwards counts
/// as no time passing. Readings without a position, or of different tracks,
/// are not seeks.
pub open spec fn jumped(old: Option<TrackInfo>, new: Option<TrackInfo>) -> bool {
    match (old, new) {
        (Some(o), Some(n)) => o.name@ == n.name@ && o.artist@ == n.artist@ && o.album@ == n.album@
            && o.position_ms is Some && n.position_ms is Some && position_drift(o, n) > SEEK_THRESHOLD_MS,
        _ => false,
    }
}

pub fn position_jumped(old: Option<&TrackInfo>, new: Option<&TrackInfo>) -> (r: bool)
    ensures
        r == jumped(
            match old {
                Some(t) => Some(*t),
                None => None,
            },
            match new {
                Some(t) => Some(*t),
                None => None,
            },
        ),
{
    let (old, new) = match (old, new) {
        (Some(o), Some(n)) => (o, n),
        _ => return false,
    };
    if !same_identity(Some(old), Some(new)) {
        return false;
    }
    let (old_position, new_position) = match (old.position_ms, new.position_ms) {
        (Some(o), Some(n)) => (o, n),
        _ => return false,
    };
    let elapsed: u64 = if new.position_sampled_at_ms >= old.position_sampled_at_ms {
        new.position_sampled_at_ms - old.position_sampled_at_ms
    } else {
        0
    };
    let expected: u128 = old_position as u128 + elapsed as u128;
    let actual: u128 = new_position as u128;
    let drift: u128 = if actual >= expected {
        actual - expected
    } else {
        expected - actual
    };
    drift > SEEK_THRESHOLD_MS as u128
}

/// Comparing the three fields answers what comparing the joined identities
/// would: the same track always has the same identity, and, while no field
/// holds the separator itself, different tracks never share one.
pub proof fn lemma_same_identity_agrees_with_identity(a: TrackInfo, b: TrackInfo)
    ensures
        same_track(Some(a), Some(b)) ==> a.identity_view() == b.identity_view(),
        (!contains_char(a.name@, UNIT_SEPARATOR) && !contains_char(a.artist@, UNIT_SEPARATOR)
            && !contains_char(b.name@, UNIT_SEPARATOR) && !contains_char(b.artist@, UNIT_SEPARATOR)
            && a.identity_view() == b.identity_view()) ==> same_track(Some(a), Some(b)),
{
    let ia = a.identity_view();
    let ib = b.identity_view();
    if !contains_char(a.name@, UNIT_SEPARATOR) && !contains_char(a.artist@, UNIT_SEPARATOR)
        && !contains_char(b.name@, UNIT_SEPARATOR) && !contains_char(b.artist@, UNIT_SEPARATOR)
        && ia == ib {
        lemma_split_at_first_separator(a.name@, a.artist@ + seq![UNIT_SEPARATOR] + a.album@);
        lemma_split_at_first_separator(b.name@, b.artist@ + seq![UNIT_SEPARATOR] + b.album@);
        assert(ia =~= a.name@ + seq![UNIT_SEPARATOR] + (a.artist@ + seq![UNIT_SEPARATOR] + a.album@));
        assert(ib =~= b.name@ + seq![UNIT_SEPARATOR] + (b.artist@ + seq![UNIT_SEPARATOR] + b.album@));
        let ra = a.artist@ + seq![UNIT_SEPARATOR] + a.album@;
        let rb = b.artist@ + seq![UNIT_SEPARATOR] + b.album@;
        assert(a.name@ == b.name@);
        assert(ra =~= ia.subrange(a.name@.len() as int + 1, ia.len() as int));
        assert(rb =~= ib.subrange(b.name@.len() as int + 1, ib.len() as int));
        lemma_split_at_first_separator(a.artist@, a.album@);
        lemma_split_at_first_separator(b.artist@, b.album@);
        assert(a.artist@ == b.artist@);
        assert(a.album@ =~= ra.subrange(a.artist@.len() as int + 1, ra.len() as int));
        assert(b.album@ =~= rb.subrange(b.artist@.len() as int + 1, rb.len() as int));
    }
}

/// A field free of the separator is exactly what precedes the first one.
proof fn lemma_split_at_first_separator(head: Seq<char>, tail: Seq<char>)
    requires
        !contains_char(head, UNIT_SEPARATOR),
    ensures
        ({
            let joined = head + seq![UNIT_SEPARATOR] + tail;
            &&& joined[head.len() as int] == UNIT_SEPARATOR
            &&& forall|i: int| 0 <= i < head.len() ==> joined[i] != UNIT_SEPARATOR
            &&& joined.subrange(0, head.len() as int) == head
        }),
{
    let joined = head + seq![UNIT_SEPARATOR] + tail;
    assert(joined.subrange(0, head.len() as int) =~= head);
    assert forall|i: int| 0 <= i < head.len() implies joined[i] != UNIT_SEPARATOR by {
        assert(joined[i] == head[i]);
    }
}

} // verus!
