//! Refusing a knock that was seen before.

use vstd::prelude::*;

use crate::adapters::{MemReplay, SeenView};
use crate::gatekeeper::ReplayGuard;
use crate::wire::NONCE_LEN;

verus! {

/// What stays on record is what was on it and is not over.
proof fn lemma_unexpired_contains(seen: Seq<SeenView>, window: u128, now: u128, entry: SeenView)
    ensures
        crate::adapters::unexpired(seen, window, now).contains(entry) == (seen.contains(entry)
            && crate::adapters::elapsed(entry.at, now) < window),
    decreases seen.len(),
{
    if seen.len() > 0 {
        let front = seen.drop_last();
        let last = seen.last();
        lemma_unexpired_contains(front, window, now, entry);
        let less = crate::adapters::unexpired(front, window, now);
        let kept = crate::adapters::unexpired(seen, window, now);
        assert(seen.contains(entry) == (front.contains(entry) || entry == last)) by {
            if front.contains(entry) {
                let k = choose|k: int| 0 <= k < front.len() && front[k] == entry;
                assert(seen[k] == entry);
            }
            if entry == last {
                assert(seen[seen.len() - 1] == entry);
            }
            if seen.contains(entry) && entry != last {
                let k = choose|k: int| 0 <= k < seen.len() && seen[k] == entry;
                assert(front[k] == entry);
            }
        }
        if crate::adapters::elapsed(last.at, now) < window {
            assert(kept == less.push(last));
            assert(kept.contains(entry) == (less.contains(entry) || entry == last)) by {
                if less.contains(entry) {
                    let k = choose|k: int| 0 <= k < less.len() && less[k] == entry;
                    assert(kept[k] == entry);
                }
                if entry == last {
                    assert(kept[less.len() as int] == entry);
                }
                if kept.contains(entry) && entry != last {
                    let k = choose|k: int| 0 <= k < kept.len() && kept[k] == entry;
                    assert(less[k] == entry);
                }
            }
        }
    }
}

/// How a row of presentations goes: each takes the cache from one state to the
/// next.
pub open spec fn presented_in_turn(
    states: Seq<MemReplay>,
    nonces: Seq<Seq<u8>>,
    times: Seq<u128>,
    fresh: Seq<bool>,
) -> bool {
    &&& states.len() == nonces.len() + 1
    &&& times.len() == nonces.len()
    &&& fresh.len() == nonces.len()
    &&& forall|k: int|
        0 <= k < nonces.len() ==> #[trigger] states[k + 1].answered_at(
            states[k],
            nonces[k],
            fresh[k],
            times[k],
        )
    &&& forall|i: int, j: int|
        0 <= i <= j < times.len() ==> #[trigger] times[i] <= #[trigger] times[j]
}

/// What is on record after `k` presentations: only what was fresh, and all of it
/// that was not over when the last one came.
proof fn lemma_record(
    states: Seq<MemReplay>,
    nonces: Seq<Seq<u8>>,
    times: Seq<u128>,
    fresh: Seq<bool>,
    k: int,
)
    requires
        presented_in_turn(states, nonces, times, fresh),
        states[0].record().len() == 0,
        0 <= k <= nonces.len(),
    ensures
        states[k].window() == states[0].window(),
        forall|e: SeenView| #[trigger]
            states[k].record().contains(e) ==> exists|i: int|
                0 <= i < k && #[trigger] fresh[i] && nonces[i] == e.nonce && times[i] == e.at,
        forall|i: int|
            0 <= i < k && #[trigger] fresh[i] && times[k - 1] - times[i] < states[0].window()
                ==> states[k].record().contains(SeenView { nonce: nonces[i], at: times[i] }),
    decreases k,
{
    if k > 0 {
        let p = k - 1;
        lemma_record(states, nonces, times, fresh, p);
        assert(states[p + 1].answered_at(states[p], nonces[p], fresh[p], times[p]));
        let before = states[p].record();
        let after = states[k].record();
        let window = states[0].window();
        let now = times[p];
        let kept = crate::adapters::unexpired(before, window, now);
        let new = SeenView { nonce: nonces[p], at: now };
        assert forall|e: SeenView| #[trigger] after.contains(e) implies exists|i: int|
            0 <= i < k && #[trigger] fresh[i] && nonces[i] == e.nonce && times[i] == e.at by {
            lemma_unexpired_contains(before, window, now, e);
            let j = choose|j: int| 0 <= j < after.len() && after[j] == e;
            if j < kept.len() {
                assert(kept[j] == e);
                let i = choose|i: int|
                    0 <= i < p && #[trigger] fresh[i] && nonces[i] == e.nonce && times[i] == e.at;
                assert(fresh[i]);
            } else {
                assert(fresh[p]);
            }
        }
        assert forall|i: int|
            0 <= i < k && #[trigger] fresh[i] && times[k - 1] - times[i] < window implies after.contains(
            SeenView { nonce: nonces[i], at: times[i] },
        ) by {
            let e = SeenView { nonce: nonces[i], at: times[i] };
            if i < p {
                assert(times[i] <= times[p - 1] && times[p - 1] <= times[p]);
                assert(before.contains(e));
                lemma_unexpired_contains(before, window, now, e);
                let j = choose|j: int| 0 <= j < kept.len() && kept[j] == e;
                assert(after[j] == e);
            } else {
                assert(after[kept.len() as int] == new);
            }
        }
    }
}

/// A nonce is fresh exactly if it was not admitted within the window before: from
/// an empty cache on, and whatever else was presented in between.
pub proof fn law_nonce_is_fresh_once_per_window(
    states: Seq<MemReplay>,
    nonces: Seq<Seq<u8>>,
    times: Seq<u128>,
    fresh: Seq<bool>,
    j: int,
)
    requires
        presented_in_turn(states, nonces, times, fresh),
        states[0].record().len() == 0,
        0 <= j < nonces.len(),
    ensures
        fresh[j] == !exists|i: int|
            0 <= i < j && #[trigger] fresh[i] && nonces[i] == nonces[j] && times[j] - times[i]
                < states[0].window(),
{
    lemma_record(states, nonces, times, fresh, j);
    assert(states[j + 1].answered_at(states[j], nonces[j], fresh[j], times[j]));
    let before = states[j].record();
    let window = states[0].window();
    let kept = crate::adapters::unexpired(before, window, times[j]);
    if exists|i: int|
        0 <= i < j && #[trigger] fresh[i] && nonces[i] == nonces[j] && times[j] - times[i]
            < window {
        let i = choose|i: int|
            0 <= i < j && #[trigger] fresh[i] && nonces[i] == nonces[j] && times[j] - times[i]
                < window;
        let e = SeenView { nonce: nonces[i], at: times[i] };
        assert(times[i] <= times[j - 1] && times[j - 1] <= times[j]);
        lemma_unexpired_contains(before, window, times[j], e);
        let k = choose|k: int| 0 <= k < kept.len() && kept[k] == e;
        assert(kept[k].nonce == nonces[j]);
    }
    if !fresh[j] {
        let k = choose|k: int| 0 <= k < kept.len() && (#[trigger] kept[k]).nonce == nonces[j];
        let e = kept[k];
        assert(kept.contains(e));
        lemma_unexpired_contains(before, window, times[j], e);
        let i = choose|i: int|
            0 <= i < j && #[trigger] fresh[i] && nonces[i] == e.nonce && times[i] == e.at;
        assert(times[i] <= times[j]);
        assert(fresh[i]);
    }
}

/// An empty cache remembers for the time that it was made for.
pub proof fn law_new_cache(window_nanos: u128, cache: MemReplay)
    requires
        call_ensures(MemReplay::new, (window_nanos,), cache),
    ensures
        cache.record().len() == 0,
        cache.window() == window_nanos,
{
}

/// A nonce is recorded exactly if an entry of the record has it.
pub proof fn law_recorded(cache: &MemReplay, nonce: Seq<u8>)
    ensures
        cache.recorded().contains(nonce) == exists|i: int|
            0 <= i < cache.record().len() && (#[trigger] cache.record()[i]).nonce == nonce,
{
}

/// Presenting a nonce at a given time is one step of such a row.
pub proof fn law_presented_at(cache: &mut MemReplay, nonce: &[u8; NONCE_LEN], now: u128, fresh: bool)
    requires
        call_ensures(MemReplay::admit_at, (cache, nonce, now), fresh),
    ensures
        final(cache).answered_at(*old(cache), nonce@, fresh, now),
        final(cache).origin() == old(cache).origin(),
{
}

/// A nonce is presented at the time that the monotonic clock told, counted from
/// when the cache was made.
pub proof fn law_presented_now(cache: &mut MemReplay, nonce: &[u8; NONCE_LEN], fresh: bool)
    requires
        call_ensures(<MemReplay as ReplayGuard>::admit_nonce, (cache, nonce), fresh),
    ensures
        final(cache).origin() == old(cache).origin(),
        exists|now: u128|
            old(cache).clock_told(now) && #[trigger] final(cache).answered_at(
                *old(cache),
                nonce@,
                fresh,
                now,
            ),
{
}

/// A nonce that was admitted when the clock told `a` is refused, when it comes again
/// and the clock tells `b`, exactly if less than the window has passed from `a` to
/// `b`.
pub proof fn law_replayed_nonce_is_refused(
    first: &mut MemReplay,
    second: &mut MemReplay,
    nonce: &[u8; NONCE_LEN],
    again: bool,
)
    requires
        call_ensures(<MemReplay as ReplayGuard>::admit_nonce, (first, nonce), true),
        call_ensures(<MemReplay as ReplayGuard>::admit_nonce, (second, nonce), again),
        *old(second) == *final(first),
    ensures
        old(second).origin() == old(first).origin(),
        exists|a: u128, b: u128| #[trigger]
            old(first).clock_told(a) && #[trigger] old(second).clock_told(b) && again == (b - a
                >= old(first).window() || b < a && old(first).window() == 0),
{
    let a = choose|now: u128|
        old(first).clock_told(now) && #[trigger] final(first).answered_at(
            *old(first),
            nonce@,
            true,
            now,
        );
    let b = choose|now: u128|
        old(second).clock_told(now) && #[trigger] final(second).answered_at(
            *old(second),
            nonce@,
            again,
            now,
        );
    let window = old(first).window();
    let earlier = crate::adapters::unexpired(old(first).record(), window, a);
    let seen = old(second).record();
    let new = SeenView { nonce: nonce@, at: a };
    assert(seen == earlier.push(new));
    let kept = crate::adapters::unexpired(seen, window, b);
    assert(seen[earlier.len() as int] == new);
    lemma_unexpired_contains(seen, window, b, new);
    if crate::adapters::elapsed(a, b) < window {
        let k = choose|k: int| 0 <= k < kept.len() && kept[k] == new;
        assert(kept[k].nonce == nonce@);
    } else if !again {
        let k = choose|k: int| 0 <= k < kept.len() && (#[trigger] kept[k]).nonce == nonce@;
        let e = kept[k];
        assert(kept.contains(e));
        lemma_unexpired_contains(seen, window, b, e);
        let j = choose|j: int| 0 <= j < seen.len() && seen[j] == e;
        if j < earlier.len() {
            assert(earlier[j].nonce == nonce@);
        }
    }
    assert(old(first).clock_told(a) && old(second).clock_told(b));
}

} // verus!
