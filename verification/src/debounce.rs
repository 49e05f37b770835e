use crate::presence::{padded, step, Event, Poll, PresenceState, HYSTERESIS};
use vstd::prelude::*;

verus! {

/// The decisions of a run of poll cycles that starts in state `s`, one
/// decision per poll.
pub open spec fn trace(s: PresenceState, polls: Seq<Poll>) -> Seq<Event>
    decreases polls.len(),
{
    if polls.len() == 0 {
        Seq::empty()
    } else {
        seq![step(s, polls[0]).1] + trace(step(s, polls[0]).0, polls.drop_first())
    }
}

/// The state after a run of poll cycles that starts in state `s`.
pub open spec fn after(s: PresenceState, polls: Seq<Poll>) -> PresenceState
    decreases polls.len(),
{
    if polls.len() == 0 {
        s
    } else {
        after(step(s, polls[0]).0, polls.drop_first())
    }
}

/// The same poll result `n` times in a row.
pub open spec fn repeated(poll: Poll, n: nat) -> Seq<Poll> {
    Seq::new(n, |i: int| poll)
}

/// The state in which the card `uid` has just been read.
pub open spec fn just_read(uid: Seq<u8>) -> PresenceState {
    PresenceState { last_uid: padded(uid), countdown: HYSTERESIS as nat }
}

/// A run of two parts decides as the first part and then the second, the
/// second starting where the first ended.
pub proof fn lemma_trace_concat(s: PresenceState, a: Seq<Poll>, b: Seq<Poll>)
    ensures
        trace(s, a + b) == trace(s, a) + trace(after(s, a), b),
        after(s, a + b) == after(after(s, a), b),
        trace(s, a).len() == a.len(),
    decreases a.len(),
{
    if a.len() == 0 {
        assert(a + b =~= b);
        assert(trace(s, a + b) =~= trace(s, a) + trace(after(s, a), b));
    } else {
        let next = step(s, a[0]).0;
        assert((a + b).drop_first() =~= a.drop_first() + b);
        lemma_trace_concat(next, a.drop_first(), b);
        assert(trace(s, a + b) =~= trace(s, a) + trace(after(s, a), b));
    }
}

/// While a card counts as present, reading it again and again announces
/// nothing and keeps it present.
pub proof fn lemma_held_card_is_silent(s: PresenceState, uid: Seq<u8>, n: nat)
    requires
        s.countdown > 0,
        s.last_uid == padded(uid),
    ensures
        trace(s, repeated(Poll::Tag(uid), n)).len() == n,
        forall|i: int| 0 <= i < n ==> #[trigger] trace(s, repeated(Poll::Tag(uid), n))[i]
            == Event::Nothing,
        n > 0 ==> after(s, repeated(Poll::Tag(uid), n)) == just_read(uid),
    decreases n,
{
    if n > 0 {
        let polls = repeated(Poll::Tag(uid), n);
        let rest = repeated(Poll::Tag(uid), (n - 1) as nat);
        assert(polls.drop_first() =~= rest);
        lemma_held_card_is_silent(just_read(uid), uid, (n - 1) as nat);
        assert(step(s, polls[0]).0 == just_read(uid));
        assert(after(just_read(uid), rest) == just_read(uid));
        assert forall|i: int| 0 <= i < n implies #[trigger] trace(s, polls)[i]
            == Event::Nothing by {
            if i > 0 {
                assert(trace(s, polls)[i] == trace(just_read(uid), rest)[i - 1]);
            }
        }
    }
}

/// A card that is read on `n` poll cycles in a row, starting while it does
/// not count as present, is presented exactly once: on the first of them.
pub proof fn lemma_repeated_reads_present_once(s: PresenceState, uid: Seq<u8>, n: nat)
    requires
        n >= 1,
        s.countdown == 0 || s.last_uid != padded(uid),
    ensures
        trace(s, repeated(Poll::Tag(uid), n)).len() == n,
        trace(s, repeated(Poll::Tag(uid), n))[0] == Event::Presented(uid),
        forall|i: int| 1 <= i < n ==> #[trigger] trace(s, repeated(Poll::Tag(uid), n))[i]
            == Event::Nothing,
        after(s, repeated(Poll::Tag(uid), n)) == just_read(uid),
{
    let polls = repeated(Poll::Tag(uid), n);
    let rest = repeated(Poll::Tag(uid), (n - 1) as nat);
    assert(polls.drop_first() =~= rest);
    lemma_held_card_is_silent(just_read(uid), uid, (n - 1) as nat);
    assert(step(s, polls[0]).0 == just_read(uid));
    assert(after(just_read(uid), rest) == just_read(uid));
    assert forall|i: int| 1 <= i < n implies #[trigger] trace(s, polls)[i] == Event::Nothing by {
        assert(trace(s, polls)[i] == trace(just_read(uid), rest)[i - 1]);
    }
}

/// A run of polls without a card counts the countdown down to zero and no
/// further. The card is gone on the poll that brings the countdown to
/// zero, and on no other.
pub proof fn lemma_absence_counts_down(s: PresenceState, n: nat)
    ensures
        trace(s, repeated(Poll::Absent, n)).len() == n,
        forall|i: int| 0 <= i < n ==> #[trigger] trace(s, repeated(Poll::Absent, n))[i] == (if i
            + 1 == s.countdown {
            Event::Gone
        } else {
            Event::Nothing
        }),
        after(s, repeated(Poll::Absent, n)).last_uid == s.last_uid,
        after(s, repeated(Poll::Absent, n)).countdown == (if n <= s.countdown {
            s.countdown - n
        } else {
            0
        }),
    decreases n,
{
    if n > 0 {
        let polls = repeated(Poll::Absent, n);
        let rest = repeated(Poll::Absent, (n - 1) as nat);
        let next = step(s, Poll::Absent).0;
        assert(polls.drop_first() =~= rest);
        lemma_absence_counts_down(next, (n - 1) as nat);
        assert forall|i: int| 0 <= i < n implies #[trigger] trace(s, polls)[i] == (if i + 1
            == s.countdown {
            Event::Gone
        } else {
            Event::Nothing
        }) by {
            if i > 0 {
                assert(trace(s, polls)[i] == trace(next, rest)[i - 1]);
            }
        }
    }
}

/// A card that is read again after fewer than `HYSTERESIS` poll cycles
/// without it is not presented a second time, and was never announced as
/// gone in between.
pub proof fn lemma_brief_absence_is_bridged(uid: Seq<u8>, gap: nat)
    requires
        gap < HYSTERESIS,
    ensures
        trace(just_read(uid), repeated(Poll::Absent, gap) + seq![Poll::Tag(uid)]).len() == gap
            + 1,
        forall|i: int| 0 <= i <= gap ==> #[trigger] trace(
            just_read(uid),
            repeated(Poll::Absent, gap) + seq![Poll::Tag(uid)],
        )[i] == Event::Nothing,
        after(just_read(uid), repeated(Poll::Absent, gap) + seq![Poll::Tag(uid)]) == just_read(
            uid,
        ),
{
    let s = just_read(uid);
    let absent = repeated(Poll::Absent, gap);
    let again = seq![Poll::Tag(uid)];
    lemma_absence_counts_down(s, gap);
    lemma_trace_concat(s, absent, again);
    let mid = after(s, absent);
    assert(again.drop_first() =~= Seq::<Poll>::empty());
    assert(mid.countdown > 0 && mid.last_uid == padded(uid));
    assert(step(mid, again[0]) == (just_read(uid), Event::Nothing));
    assert(trace(just_read(uid), again.drop_first()) =~= Seq::<Event>::empty());
    assert(after(just_read(uid), again.drop_first()) == just_read(uid));
    assert(trace(mid, again) =~= seq![Event::Nothing]);
    assert(after(mid, again) == just_read(uid));
}

/// A card that is read and then missing is announced as gone exactly once:
/// on the `HYSTERESIS`-th poll cycle without it. No poll before that one
/// and none after it announces anything.
pub proof fn lemma_removal_is_announced_once(uid: Seq<u8>, n: nat)
    ensures
        trace(just_read(uid), repeated(Poll::Absent, n)).len() == n,
        forall|i: int| 0 <= i < n ==> #[trigger] trace(just_read(uid), repeated(Poll::Absent, n))[i]
            == (if i + 1 == HYSTERESIS {
            Event::Gone
        } else {
            Event::Nothing
        }),
        n >= HYSTERESIS ==> after(just_read(uid), repeated(Poll::Absent, n)).countdown == 0,
{
    lemma_absence_counts_down(just_read(uid), n);
}

/// A card that is read while another still counts as present is presented
/// at once.
pub proof fn lemma_other_card_is_presented(s: PresenceState, first: Seq<u8>, second: Seq<u8>)
    requires
        padded(first) != padded(second),
    ensures
        step(s, Poll::Tag(first)).0 == just_read(first),
        step(just_read(first), Poll::Tag(second)).1 == Event::Presented(second),
        step(just_read(first), Poll::Tag(second)).0 == just_read(second),
{
}

/// Two UIDs of the same length are remembered as the same card only if
/// they are the same bytes.
pub proof fn lemma_padding_keeps_bytes(a: Seq<u8>, b: Seq<u8>)
    requires
        a.len() == b.len(),
        a.len() <= 10,
        padded(a) == padded(b),
    ensures
        a == b,
{
    assert forall|i: int| 0 <= i < a.len() implies a[i] == b[i] by {
        assert(padded(a)[i] == a[i]);
        assert(padded(b)[i] == b[i]);
    }
    assert(a =~= b);
}

} // verus!
