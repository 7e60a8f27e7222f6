//! What the decision core runs on in the daemon: the system clock, an in-memory
//! replay cache, the configured trust store, and a queue of openings for the
//! packet filter.

use vstd::prelude::*;

use crate::addr::IpAddr;
use crate::bytes::same;
use crate::config::{ClientEntry, EntryView, TokenEntry};
use crate::gatekeeper::{
    Auth, ClientPolicy, Clock, GateWriter, OpeningView, PolicyView, ReplayGuard, TrustStore,
};
use crate::wire::{Suite, NONCE_LEN, THUMBPRINT_LEN};

verus! {

/// `std::time::SystemTime::elapsed` since the Unix epoch, in nanoseconds; `None`
/// for a clock set before it. Nothing is claimed of the time that it tells.
#[verifier::external_body]
pub(crate) fn unix_nanos() -> (r: Option<u128>) {
    match std::time::UNIX_EPOCH.elapsed() {
        Ok(since) => Some(since.as_nanos()),
        Err(_) => None,
    }
}

/// The system's clock told this many nanoseconds since the epoch, or that it is
/// set before it: a reading of it came out so.
pub closed spec fn wall_clock_told(nanos: Option<u128>) -> bool {
    call_ensures(unix_nanos, (), nanos)
}

/// What the clock told is what reading it gave, and nothing else.
pub(crate) proof fn law_wall_clock_told_is_a_reading(nanos: Option<u128>)
    ensures
        wall_clock_told(nanos) == call_ensures(unix_nanos, (), nanos),
{
}

/// `std::time::Instant`, a moment on the monotonic clock.
#[verifier::external_type_specification]
#[verifier::external_body]
pub struct ExInstant(std::time::Instant);

/// `std::time::Instant::now`. Nothing is claimed of the time that it tells.
#[verifier::external_body]
fn instant_now() -> (r: std::time::Instant) {
    std::time::Instant::now()
}

/// `std::time::Instant::elapsed`, in nanoseconds. Nothing is claimed of the time
/// that it tells.
#[verifier::external_body]
fn elapsed_nanos(since: &std::time::Instant) -> (r: u128) {
    since.elapsed().as_nanos()
}

/// Nanoseconds since the epoch as far as a timestamp holds them: their low-order
/// 64 bits.
pub open spec fn timestamp(nanos: u128) -> u64 {
    (nanos % 0x1_0000_0000_0000_0000) as u64
}

pub fn to_timestamp(nanos: u128) -> (r: u64)
    ensures
        r == timestamp(nanos),
{
    let r: u64 = #[verifier::truncate] (nanos as u64);
    assert(nanos as u64 == (nanos % 0x1_0000_0000_0000_0000) as u64) by (bit_vector);
    r
}

/// What a clock tells that reads so many nanoseconds since the epoch; zero, where
/// it is set before it.
pub fn clock_reading(nanos: Option<u128>) -> (r: u64)
    ensures
        r == match nanos {
            Some(nanos) => timestamp(nanos),
            None => 0,
        },
{
    match nanos {
        Some(nanos) => to_timestamp(nanos),
        None => 0,
    }
}

/// Wall clock for the knock-timestamp check. A clock set before the epoch tells
/// zero.
pub struct SystemClock;

impl Clock for SystemClock {
    /// The low-order 64 bits of what the system's clock told, or zero where it is
    /// set before the epoch. Nothing is claimed of the time itself.
    open spec fn tells(&self, now: u64) -> bool {
        exists|nanos: Option<u128>| #[trigger]
            wall_clock_told(nanos) && now == match nanos {
                Some(nanos) => nanos % 0x1_0000_0000_0000_0000,
                None => 0,
            }
    }

    fn now_unix_nanos(&self) -> (r: u64) {
        let nanos = unix_nanos();
        proof {
            law_wall_clock_told_is_a_reading(nanos);
        }
        assert(wall_clock_told(nanos));
        clock_reading(nanos)
    }
}

/// One admitted nonce, and when it was admitted.
pub struct Seen {
    pub nonce: [u8; NONCE_LEN],
    pub at: u128,
}

/// What a [`Seen`] says.
#[verifier::ext_equal]
pub struct SeenView {
    pub nonce: Seq<u8>,
    pub at: u128,
}

impl View for Seen {
    type V = SeenView;

    open spec fn view(&self) -> SeenView {
        SeenView { nonce: self.nonce@, at: self.at }
    }
}

/// The time from `at` to `now`; none, where `at` is yet to come.
pub open spec fn elapsed(at: u128, now: u128) -> int {
    if now >= at {
        now - at
    } else {
        0
    }
}

/// The entries that `now` leaves within the window.
pub open spec fn unexpired(seen: Seq<SeenView>, window: u128, now: u128) -> Seq<SeenView>
    decreases seen.len(),
{
    if seen.len() == 0 {
        seen
    } else {
        let front = unexpired(seen.drop_last(), window, now);
        if elapsed(seen.last().at, now) < window {
            front.push(seen.last())
        } else {
            front
        }
    }
}

/// Whether a nonce is on record.
pub open spec fn on_record(seen: Seq<SeenView>, nonce: Seq<u8>) -> bool {
    exists|i: int| 0 <= i < seen.len() && (#[trigger] seen[i]).nonce == nonce
}

/// The record after a nonce was presented at `now`.
pub open spec fn presented(seen: Seq<SeenView>, window: u128, nonce: Seq<u8>, now: u128) -> Seq<
    SeenView,
> {
    let kept = unexpired(seen, window, now);
    if on_record(kept, nonce) {
        kept
    } else {
        kept.push(SeenView { nonce, at: now })
    }
}

/// In-memory replay cache: a nonce is admitted once within a window. Entries
/// older than the window are dropped on each call, so memory is bounded by the
/// window and the knock rate.
pub struct MemReplay {
    seen: Vec<Seen>,
    window_nanos: u128,
    started: std::time::Instant,
}

impl MemReplay {
    /// The nonces on record, oldest first.
    pub closed spec fn record(self) -> Seq<SeenView> {
        self.seen@.map_values(|s: Seen| s@)
    }

    pub closed spec fn window(self) -> u128 {
        self.window_nanos
    }

    /// When the cache was made.
    pub closed spec fn origin(self) -> std::time::Instant {
        self.started
    }

    /// The monotonic clock told that the cache is this many nanoseconds old: a
    /// reading of it came out so.
    pub closed spec fn clock_told(self, nanos: u128) -> bool {
        call_ensures(elapsed_nanos, (&self.started,), nanos)
    }

    /// What the clock told is what reading it gave, counted from when the cache was
    /// made, and nothing else.
    proof fn law_clock_told_is_a_reading(self, nanos: u128)
        ensures
            self.clock_told(nanos) == call_ensures(elapsed_nanos, (&self.origin(),), nanos),
    {
    }

    /// How presenting a nonce at `now` takes the cache from `before` to `self`,
    /// and whether the nonce is fresh.
    pub open spec fn answered_at(self, before: Self, nonce: Seq<u8>, fresh: bool, now: u128) -> bool {
        &&& fresh == !on_record(unexpired(before.record(), before.window(), now), nonce)
        &&& self.record() == presented(before.record(), before.window(), nonce, now)
        &&& self.window() == before.window()
    }

    /// An empty cache that remembers for `window_nanos`.
    pub fn new(window_nanos: u128) -> (r: Self)
        ensures
            r.record() == Seq::<SeenView>::empty(),
            r.window() == window_nanos,
    {
        let r = MemReplay { seen: Vec::new(), window_nanos, started: instant_now() };
        assert(r.record() =~= Seq::<SeenView>::empty());
        r
    }

    /// Present a nonce at `now`, in nanoseconds since any fixed moment: `true` if
    /// it is fresh, which records it.
    pub fn admit_at(&mut self, nonce: &[u8; NONCE_LEN], now: u128) -> (fresh: bool)
        ensures
            final(self).answered_at(*old(self), nonce@, fresh, now),
            final(self).origin() == old(self).origin(),
    {
        let ghost record = self.record();
        let window: u128 = self.window_nanos;
        let mut kept: Vec<Seen> = Vec::new();
        let mut known: bool = false;
        let mut i: usize = 0;
        let ghost mut kept_view = Seq::<SeenView>::empty();
        assert(kept@.map_values(|s: Seen| s@) =~= kept_view);
        while i < self.seen.len()
            invariant
                i <= self.seen@.len(),
                record == self.record(),
                window == self.window_nanos,
                *self == *old(self),
                kept@.map_values(|s: Seen| s@) == kept_view,
                kept_view == unexpired(record.take(i as int), window, now),
                known == on_record(kept_view, nonce@),
            decreases self.seen@.len() - i,
        {
            let entry = &self.seen[i];
            let ghost before = kept_view;
            proof {
                assert(record[i as int] == entry@);
                assert(record.take(i + 1).drop_last() =~= record.take(i as int));
                assert(record.take(i + 1).last() == entry@);
            }
            let age: u128 = if now >= entry.at {
                now - entry.at
            } else {
                0
            };
            if age < window {
                let matches: bool = same(entry.nonce.as_slice(), nonce.as_slice());
                kept.push(Seen { nonce: entry.nonce, at: entry.at });
                proof {
                    kept_view = before.push(entry@);
                    assert(kept@.map_values(|s: Seen| s@) =~= kept_view);
                    assert(kept_view[before.len() as int] == entry@);
                    if known {
                        let k = choose|k: int|
                            0 <= k < before.len() && (#[trigger] before[k]).nonce == nonce@;
                        assert(kept_view[k].nonce == nonce@);
                    }
                }
                known = known || matches;
            }
            i += 1;
        }
        assert(record.take(i as int) =~= record);
        let ghost before = kept_view;
        if !known {
            kept.push(Seen { nonce: *nonce, at: now });
            assert(kept@.map_values(|s: Seen| s@) =~= before.push(
                SeenView { nonce: nonce@, at: now },
            ));
        }
        self.seen = kept;
        !known
    }
}

/// No nonce stands on a record twice.
pub open spec fn once_each(seen: Seq<SeenView>) -> bool {
    forall|i: int, j: int|
        0 <= i < j < seen.len() ==> (#[trigger] seen[i]).nonce != (#[trigger] seen[j]).nonce
}

proof fn lemma_unexpired_once_each(seen: Seq<SeenView>, window: u128, now: u128)
    requires
        once_each(seen),
    ensures
        once_each(unexpired(seen, window, now)),
    decreases seen.len(),
{
    if seen.len() > 0 {
        let front = seen.drop_last();
        assert forall|i: int, j: int| 0 <= i < j < front.len() implies (#[trigger] front[i]).nonce
            != (#[trigger] front[j]).nonce by {
            assert(seen[i].nonce != seen[j].nonce);
        }
        lemma_unexpired_once_each(front, window, now);
        let kept = unexpired(front, window, now);
        let nonce = seen.last().nonce;
        lemma_unexpired_subset(front, window, now, nonce);
        assert(!on_record(front, nonce)) by {
            if on_record(front, nonce) {
                let k = choose|k: int| 0 <= k < front.len() && (#[trigger] front[k]).nonce == nonce;
                assert(seen[k].nonce != seen[seen.len() - 1].nonce);
            }
        }
        assert forall|i: int| 0 <= i < kept.len() implies (#[trigger] kept[i]).nonce != nonce by {
            if kept[i].nonce == nonce {
                assert(on_record(kept, nonce));
            }
        }
    }
}

/// The cache keeps each nonce once: presenting a nonce, fresh or not, leaves none
/// on record twice.
pub proof fn law_nonce_is_kept_once(
    seen: Seq<SeenView>,
    window: u128,
    nonce: Seq<u8>,
    now: u128,
)
    requires
        once_each(seen),
    ensures
        once_each(presented(seen, window, nonce, now)),
{
    lemma_unexpired_once_each(seen, window, now);
    let kept = unexpired(seen, window, now);
    if !on_record(kept, nonce) {
        assert forall|i: int| 0 <= i < kept.len() implies (#[trigger] kept[i]).nonce != nonce by {
            if kept[i].nonce == nonce {
                assert(on_record(kept, nonce));
            }
        }
    }
}

proof fn lemma_unexpired_subset(seen: Seq<SeenView>, window: u128, now: u128, nonce: Seq<u8>)
    ensures
        on_record(unexpired(seen, window, now), nonce) ==> on_record(seen, nonce),
    decreases seen.len(),
{
    if seen.len() > 0 {
        let front = seen.drop_last();
        lemma_unexpired_subset(front, window, now, nonce);
        let kept = unexpired(seen, window, now);
        if on_record(kept, nonce) {
            let k = choose|k: int| 0 <= k < kept.len() && (#[trigger] kept[k]).nonce == nonce;
            let less = unexpired(front, window, now);
            if k < less.len() {
                assert(less[k].nonce == nonce);
                let j = choose|j: int| 0 <= j < front.len() && (#[trigger] front[j]).nonce == nonce;
                assert(seen[j].nonce == nonce);
            } else {
                assert(seen[seen.len() - 1].nonce == nonce);
            }
        }
    }
}

impl ReplayGuard for MemReplay {
    open spec fn recorded(&self) -> Set<Seq<u8>> {
        Set::new(|nonce: Seq<u8>| on_record(self.record(), nonce))
    }

    /// The nonce is presented when the monotonic clock told it is.
    open spec fn answered(&self, before: &Self, nonce: Seq<u8>, fresh: bool) -> bool {
        &&& self.origin() == before.origin()
        &&& exists|now: u128|
            before.clock_told(now) && #[trigger] self.answered_at(*before, nonce, fresh, now)
    }

    fn admit_nonce(&mut self, nonce: &[u8; NONCE_LEN]) -> (fresh: bool) {
        let now: u128 = elapsed_nanos(&self.started);
        let ghost before = self.record();
        let ghost window = self.window();
        proof {
            self.law_clock_told_is_a_reading(now);
        }
        let fresh = self.admit_at(nonce, now);
        proof {
            assert(self.answered_at(*old(self), nonce@, fresh, now));
            let after = self.record();
            lemma_unexpired_subset(before, window, now, nonce@);
            if fresh {
                assert(after[after.len() - 1].nonce == nonce@);
            }
            assert forall|n: Seq<u8>| #[trigger]
                self.recorded().contains(n) implies old(self).recorded().insert(nonce@).contains(
                n,
            ) by {
                lemma_unexpired_subset(before, window, now, n);
                let kept = unexpired(before, window, now);
                let k = choose|k: int| 0 <= k < after.len() && (#[trigger] after[k]).nonce == n;
                if k < kept.len() {
                    assert(kept[k].nonce == n);
                }
            }
        }
        fresh
    }
}

/// The record after a row of presentations.
pub open spec fn presented_all(seen: Seq<SeenView>, window: u128, events: Seq<SeenView>) -> Seq<
    SeenView,
>
    decreases events.len(),
{
    if events.len() == 0 {
        seen
    } else {
        let last = events.last();
        presented(presented_all(seen, window, events.drop_last()), window, last.nonce, last.at)
    }
}

/// An entry stays while it is within the window.
proof fn lemma_entry_stays(seen: Seq<SeenView>, window: u128, now: u128, entry: SeenView)
    requires
        seen.contains(entry),
        elapsed(entry.at, now) < window,
    ensures
        unexpired(seen, window, now).contains(entry),
    decreases seen.len(),
{
    let front = seen.drop_last();
    let kept = unexpired(seen, window, now);
    if seen.last() == entry {
        assert(kept[kept.len() - 1] == entry);
    } else {
        let i = choose|i: int| 0 <= i < seen.len() && seen[i] == entry;
        assert(front[i] == entry);
        lemma_entry_stays(front, window, now, entry);
        let less = unexpired(front, window, now);
        let k = choose|k: int| 0 <= k < less.len() && less[k] == entry;
        assert(kept[k] == entry);
    }
}

/// A nonce that was admitted is refused until the window is over, whatever was
/// presented in between.
pub proof fn law_replay_refused_within_window(
    seen: Seq<SeenView>,
    window: u128,
    nonce: Seq<u8>,
    at: u128,
    events: Seq<SeenView>,
    now: u128,
)
    requires
        !on_record(unexpired(seen, window, at), nonce),
        forall|i: int| 0 <= i < events.len() ==> elapsed(at, (#[trigger] events[i]).at) < window,
        elapsed(at, now) < window,
    ensures
        on_record(
            unexpired(
                presented_all(presented(seen, window, nonce, at), window, events),
                window,
                now,
            ),
            nonce,
        ),
{
    let entry = SeenView { nonce, at };
    let first = presented(seen, window, nonce, at);
    assert(first[first.len() - 1] == entry);
    lemma_entry_outlasts(first, window, events, entry);
    let record = presented_all(first, window, events);
    lemma_entry_stays(record, window, now, entry);
    let kept = unexpired(record, window, now);
    let k = choose|k: int| 0 <= k < kept.len() && kept[k] == entry;
    assert(kept[k].nonce == nonce);
}

proof fn lemma_entry_outlasts(
    seen: Seq<SeenView>,
    window: u128,
    events: Seq<SeenView>,
    entry: SeenView,
)
    requires
        seen.contains(entry),
        forall|i: int|
            0 <= i < events.len() ==> elapsed(entry.at, (#[trigger] events[i]).at) < window,
    ensures
        presented_all(seen, window, events).contains(entry),
    decreases events.len(),
{
    if events.len() > 0 {
        let front = events.drop_last();
        assert forall|i: int| 0 <= i < front.len() implies elapsed(
            entry.at,
            (#[trigger] front[i]).at,
        ) < window by {
            assert(front[i] == events[i]);
        }
        lemma_entry_outlasts(seen, window, front, entry);
        let before = presented_all(seen, window, front);
        let last = events[events.len() - 1];
        lemma_entry_stays(before, window, last.at, entry);
        let kept = unexpired(before, window, last.at);
        let k = choose|k: int| 0 <= k < kept.len() && kept[k] == entry;
        assert(presented_all(seen, window, events)[k] == entry);
    }
}

/// The last entry with this id.
pub open spec fn entry_for(entries: Seq<EntryView>, id: Seq<u8>) -> Option<EntryView>
    decreases entries.len(),
{
    if entries.len() == 0 {
        None
    } else if entries.last().id == id {
        Some(entries.last())
    } else {
        entry_for(entries.drop_last(), id)
    }
}

/// The entries with any other id, in their order.
pub open spec fn without(entries: Seq<EntryView>, id: Seq<u8>) -> Seq<EntryView>
    decreases entries.len(),
{
    if entries.len() == 0 {
        Seq::empty()
    } else if entries.last().id == id {
        without(entries.drop_last(), id)
    } else {
        without(entries.drop_last(), id).push(entries.last())
    }
}

proof fn lemma_without(entries: Seq<EntryView>, gone: Seq<u8>, id: Seq<u8>)
    ensures
        entry_for(without(entries, gone), id) == if id == gone {
            None
        } else {
            entry_for(entries, id)
        },
    decreases entries.len(),
{
    if entries.len() > 0 {
        let front = entries.drop_last();
        lemma_without(front, gone, id);
        if entries.last().id != gone {
            assert(without(front, gone).push(entries.last()).drop_last() =~= without(front, gone));
        }
    }
}

/// What is entered replaces what was known under its id, and nothing else.
pub proof fn law_entry_is_replaced(entries: Seq<EntryView>, entry: EntryView, id: Seq<u8>)
    ensures
        entry_for(without(entries, entry.id).push(entry), id) == if id == entry.id {
            Some(entry)
        } else {
            entry_for(entries, id)
        },
{
    lemma_without(entries, entry.id, id);
    assert(without(entries, entry.id).push(entry).drop_last() =~= without(entries, entry.id));
}

/// The last entry with an id is the one that counts; with no entry, none does.
pub proof fn law_last_entry_counts(entries: Seq<EntryView>, id: Seq<u8>)
    ensures
        forall|i: int|
            0 <= i < entries.len() && (#[trigger] entries[i]).id == id && (forall|j: int|
                i < j < entries.len() ==> (#[trigger] entries[j]).id != id) ==> entry_for(
                entries,
                id,
            ) == Some(entries[i]),
        (forall|i: int| 0 <= i < entries.len() ==> (#[trigger] entries[i]).id != id) ==> entry_for(
            entries,
            id,
        ) is None,
    decreases entries.len(),
{
    if entries.len() > 0 {
        let front = entries.drop_last();
        law_last_entry_counts(front, id);
        assert forall|i: int|
            0 <= i < entries.len() && (#[trigger] entries[i]).id == id && (forall|j: int|
                i < j < entries.len() ==> (#[trigger] entries[j]).id != id) implies entry_for(
            entries,
            id,
        ) == Some(entries[i]) by {
            if i < front.len() {
                assert(entries[entries.len() - 1].id != id);
                assert(front[i] == entries[i]);
                assert forall|j: int| i < j < front.len() implies (#[trigger] front[j]).id != id by {
                    assert(front[j] == entries[j]);
                }
            }
        }
        if forall|i: int| 0 <= i < entries.len() ==> (#[trigger] entries[i]).id != id {
            assert(entries[entries.len() - 1].id != id);
            assert forall|i: int| 0 <= i < front.len() implies (#[trigger] front[i]).id != id by {
                assert(front[i] == entries[i]);
            }
        }
    }
}

/// Whether an id is on a list.
spec fn listed(ids: Seq<[u8; THUMBPRINT_LEN]>, id: Seq<u8>) -> bool {
    exists|i: int| 0 <= i < ids.len() && (#[trigger] ids[i])@ == id
}

/// Trust store backed by the daemon's policy: clients by key thumbprint, and
/// one-time enrollment tokens by token id. All share one suite. A token
/// that was used stays burned, even where a later policy still lists it.
pub struct ConfigTrust {
    suite: Suite,
    clients: Vec<ClientEntry>,
    tokens: Vec<TokenEntry>,
    burned: Vec<[u8; THUMBPRINT_LEN]>,
}

impl ConfigTrust {
    pub closed spec fn trust_suite(self) -> Suite {
        self.suite
    }

    /// The clients, in the order in which they were entered.
    pub closed spec fn client_list(self) -> Seq<EntryView> {
        crate::config::client_views(self.clients@)
    }

    /// The tokens of the current policy.
    pub closed spec fn token_list(self) -> Seq<EntryView> {
        crate::config::token_views(self.tokens@)
    }

    /// Whether a token has been used.
    pub closed spec fn is_burned(self, id: Seq<u8>) -> bool {
        listed(self.burned@, id)
    }

    /// A store that trusts nobody.
    pub fn new(suite: Suite) -> (r: Self)
        ensures
            r.trust_suite() == suite,
            r.client_list() == Seq::<EntryView>::empty(),
            r.token_list() == Seq::<EntryView>::empty(),
            forall|id: Seq<u8>| !#[trigger] r.is_burned(id),
    {
        let r = ConfigTrust {
            suite,
            clients: Vec::new(),
            tokens: Vec::new(),
            burned: Vec::new(),
        };
        assert(r.client_list() =~= Seq::<EntryView>::empty());
        assert(r.token_list() =~= Seq::<EntryView>::empty());
        r
    }

    /// Authorize a client, replacing what was known under its thumbprint.
    pub fn insert(
        &mut self,
        thumbprint: [u8; THUMBPRINT_LEN],
        public_key: Vec<u8>,
        ports: Vec<u16>,
    )
        ensures
            final(self).client_list() == without(old(self).client_list(), thumbprint@).push(
                EntryView { id: thumbprint@, key: public_key@, ports: ports@ },
            ),
            final(self).token_list() == old(self).token_list(),
            final(self).trust_suite() == old(self).trust_suite(),
            forall|id: Seq<u8>| #[trigger]
                final(self).is_burned(id) == old(self).is_burned(id),
            forall|id: Seq<u8>| #[trigger]
                final(self).policy(id) == if id == thumbprint@ {
                    Some(
                        PolicyView {
                            public_key: public_key@,
                            suite: old(self).trust_suite(),
                            allowed_ports: ports@,
                            auth: Auth::Signature,
                            single_use: false,
                        },
                    )
                } else {
                    old(self).policy(id)
                },
    {
        let ghost list = self.client_list();
        let mut kept: Vec<ClientEntry> = Vec::new();
        let mut i: usize = 0;
        assert(crate::config::client_views(kept@) =~= without(list.take(0), thumbprint@));
        while i < self.clients.len()
            invariant
                *self == *old(self),
                i <= self.clients@.len(),
                list == self.client_list(),
                crate::config::client_views(kept@) == without(list.take(i as int), thumbprint@),
            decreases self.clients@.len() - i,
        {
            let ghost before = kept@;
            proof {
                assert(list[i as int] == self.clients@[i as int]@);
                assert(list.take(i + 1).drop_last() =~= list.take(i as int));
                assert(list.take(i + 1).last() == list[i as int]);
            }
            if !same(self.clients[i].thumbprint.as_slice(), thumbprint.as_slice()) {
                kept.push(self.clients[i].clone());
                assert(crate::config::client_views(kept@) =~= crate::config::client_views(
                    before,
                ).push(list[i as int]));
            }
            i += 1;
        }
        assert(list.take(i as int) =~= list);
        let ghost before = kept@;
        let entry = ClientEntry { thumbprint, public_key, ports };
        kept.push(entry);
        assert(crate::config::client_views(kept@) =~= crate::config::client_views(before).push(
            entry@,
        ));
        self.clients = kept;
        proof {
            assert forall|id: Seq<u8>| #[trigger] self.policy(id) == if id == thumbprint@ {
                Some(
                    PolicyView {
                        public_key: entry.public_key@,
                        suite: old(self).trust_suite(),
                        allowed_ports: entry.ports@,
                        auth: Auth::Signature,
                        single_use: false,
                    },
                )
            } else {
                old(self).policy(id)
            } by {
                law_entry_is_replaced(list, entry@, id);
                assert(self.is_burned(id) == old(self).is_burned(id));
            }
        }
    }

    /// Replace all clients.
    pub fn set(&mut self, clients: &[ClientEntry])
        ensures
            final(self).client_list() == crate::config::client_views(clients@),
            final(self).token_list() == old(self).token_list(),
            final(self).trust_suite() == old(self).trust_suite(),
            forall|id: Seq<u8>| #[trigger]
                final(self).is_burned(id) == old(self).is_burned(id),
    {
        let mut copy: Vec<ClientEntry> = Vec::new();
        let mut i: usize = 0;
        while i < clients.len()
            invariant
                i <= clients@.len(),
                crate::config::client_views(copy@) =~= crate::config::client_views(
                    clients@,
                ).take(i as int),
            decreases clients@.len() - i,
        {
            let ghost before = copy@;
            copy.push(clients[i].clone());
            assert(crate::config::client_views(copy@) =~= crate::config::client_views(before).push(
                clients@[i as int]@,
            ));
            i += 1;
        }
        self.clients = copy;
        assert(self.client_list() =~= crate::config::client_views(clients@));
    }

    /// Replace all tokens. Tokens that were used stay burned.
    pub fn set_tokens(&mut self, tokens: &[TokenEntry])
        ensures
            final(self).token_list() == crate::config::token_views(tokens@),
            final(self).client_list() == old(self).client_list(),
            final(self).trust_suite() == old(self).trust_suite(),
            forall|id: Seq<u8>| #[trigger]
                final(self).is_burned(id) == old(self).is_burned(id),
    {
        let mut copy: Vec<TokenEntry> = Vec::new();
        let mut i: usize = 0;
        while i < tokens.len()
            invariant
                i <= tokens@.len(),
                crate::config::token_views(copy@) =~= crate::config::token_views(tokens@).take(
                    i as int,
                ),
            decreases tokens@.len() - i,
        {
            let ghost before = copy@;
            copy.push(tokens[i].clone());
            assert(crate::config::token_views(copy@) =~= crate::config::token_views(before).push(
                tokens@[i as int]@,
            ));
            i += 1;
        }
        self.tokens = copy;
        assert(self.token_list() =~= crate::config::token_views(tokens@));
    }

    fn find_client(&self, id: &[u8; THUMBPRINT_LEN]) -> (r: Option<&ClientEntry>)
        ensures
            match r {
                Some(entry) => entry_for(self.client_list(), id@) == Some(entry@),
                None => entry_for(self.client_list(), id@) is None,
            },
    {
        let mut n: usize = self.clients.len();
        let ghost list = self.client_list();
        assert(list.take(n as int) =~= list);
        while n > 0
            invariant
                n <= self.clients@.len(),
                list == self.client_list(),
                entry_for(list.take(n as int), id@) == entry_for(list, id@),
            decreases n,
        {
            let entry = &self.clients[n - 1];
            proof {
                assert(list[n - 1] == entry@);
                assert(list.take(n as int).drop_last() =~= list.take(n - 1));
                assert(list.take(n as int).last() == entry@);
            }
            if same(entry.thumbprint.as_slice(), id.as_slice()) {
                return Some(entry);
            }
            n -= 1;
        }
        None
    }

    fn find_token(&self, id: &[u8; THUMBPRINT_LEN]) -> (r: Option<&TokenEntry>)
        ensures
            match r {
                Some(entry) => entry_for(self.token_list(), id@) == Some(entry@),
                None => entry_for(self.token_list(), id@) is None,
            },
    {
        let mut n: usize = self.tokens.len();
        let ghost list = self.token_list();
        assert(list.take(n as int) =~= list);
        while n > 0
            invariant
                n <= self.tokens@.len(),
                list == self.token_list(),
                entry_for(list.take(n as int), id@) == entry_for(list, id@),
            decreases n,
        {
            let entry = &self.tokens[n - 1];
            proof {
                assert(list[n - 1] == entry@);
                assert(list.take(n as int).drop_last() =~= list.take(n - 1));
                assert(list.take(n as int).last() == entry@);
            }
            if same(entry.token_id.as_slice(), id.as_slice()) {
                return Some(entry);
            }
            n -= 1;
        }
        None
    }

    fn burned_before(&self, id: &[u8; THUMBPRINT_LEN]) -> (r: bool)
        ensures
            r == self.is_burned(id@),
    {
        let mut i: usize = 0;
        while i < self.burned.len()
            invariant
                i <= self.burned@.len(),
                forall|k: int| 0 <= k < i ==> (#[trigger] self.burned@[k])@ != id@,
            decreases self.burned@.len() - i,
        {
            if same(self.burned[i].as_slice(), id.as_slice()) {
                return true;
            }
            i += 1;
        }
        false
    }
}

impl TrustStore for ConfigTrust {
    /// A client is known by its last entry; failing that, a token that was not
    /// used yet is good for one knock.
    open spec fn policy(&self, thumbprint: Seq<u8>) -> Option<PolicyView> {
        match entry_for(self.client_list(), thumbprint) {
            Some(client) => Some(
                PolicyView {
                    public_key: client.key,
                    suite: self.trust_suite(),
                    allowed_ports: client.ports,
                    auth: Auth::Signature,
                    single_use: false,
                },
            ),
            None => match entry_for(self.token_list(), thumbprint) {
                Some(token) if !self.is_burned(thumbprint) => Some(
                    PolicyView {
                        public_key: token.key,
                        suite: self.trust_suite(),
                        allowed_ports: token.ports,
                        auth: Auth::Psk,
                        single_use: true,
                    },
                ),
                _ => None,
            },
        }
    }

    fn lookup(&self, thumbprint: &[u8; THUMBPRINT_LEN]) -> (r: Option<ClientPolicy>) {
        if let Some(client) = self.find_client(thumbprint) {
            let copy = client.clone();
            return Some(
                ClientPolicy {
                    public_key: copy.public_key,
                    suite: self.suite,
                    allowed_ports: copy.ports,
                    auth: Auth::Signature,
                    single_use: false,
                },
            );
        }
        if let Some(token) = self.find_token(thumbprint) {
            if !self.burned_before(thumbprint) {
                let copy = token.clone();
                return Some(
                    ClientPolicy {
                        public_key: copy.secret,
                        suite: self.suite,
                        allowed_ports: copy.ports,
                        auth: Auth::Psk,
                        single_use: true,
                    },
                );
            }
        }
        None
    }

    fn consume(&mut self, thumbprint: &[u8; THUMBPRINT_LEN])
        ensures
            final(self).client_list() == old(self).client_list(),
            final(self).token_list() == old(self).token_list(),
            final(self).trust_suite() == old(self).trust_suite(),
            forall|id: Seq<u8>| #[trigger]
                final(self).is_burned(id) == (old(self).is_burned(id) || id == thumbprint@),
    {
        let ghost before = self.burned@;
        self.burned.push(*thumbprint);
        proof {
            assert forall|id: Seq<u8>| #[trigger]
                self.is_burned(id) == (old(self).is_burned(id) || id == thumbprint@) by {
                if old(self).is_burned(id) {
                    let i = choose|i: int|
                        0 <= i < before.len() && (#[trigger] before[i])@ == id;
                    assert(self.burned@[i]@ == id);
                }
                if id == thumbprint@ {
                    assert(self.burned@[before.len() as int]@ == id);
                }
                if self.is_burned(id) {
                    let i = choose|i: int|
                        0 <= i < self.burned@.len() && (#[trigger] self.burned@[i])@ == id;
                    if i < before.len() {
                        assert(before[i]@ == id);
                    }
                }
            }
        }
    }
}

/// A burned token is unknown, and stays so under every later policy that does
/// not make its id a client's.
pub proof fn law_burned_token_stays_burned(trust: ConfigTrust, id: Seq<u8>)
    requires
        trust.is_burned(id),
        entry_for(trust.client_list(), id) is None,
    ensures
        trust.policy(id) is None,
{
}

/// One opening that is to be programmed into the packet filter.
#[derive(Debug, PartialEq, Eq)]
pub struct Opening {
    pub source: IpAddr,
    pub ports: Vec<u16>,
    pub ttl_nanos: u64,
}

impl View for Opening {
    type V = OpeningView;

    open spec fn view(&self) -> OpeningView {
        OpeningView { source: self.source, ports: self.ports@, ttl_nanos: self.ttl_nanos }
    }
}

/// The openings that the core has ordered and the daemon has yet to carry out.
pub struct GateQueue {
    pending: Vec<Opening>,
}

impl GateQueue {
    /// An empty queue.
    pub fn new() -> (r: Self)
        ensures
            r.openings() == Seq::<OpeningView>::empty(),
    {
        let r = GateQueue { pending: Vec::new() };
        assert(r.openings() =~= Seq::<OpeningView>::empty());
        r
    }

    /// Take what is to be carried out, oldest first.
    pub fn drain(&mut self) -> (r: Vec<Opening>)
        ensures
            r@.map_values(|o: Opening| o@) == old(self).openings(),
            final(self).openings() == Seq::<OpeningView>::empty(),
    {
        let mut r: Vec<Opening> = Vec::new();
        std::mem::swap(&mut r, &mut self.pending);
        assert(self.openings() =~= Seq::<OpeningView>::empty());
        r
    }
}

impl GateWriter for GateQueue {
    closed spec fn openings(&self) -> Seq<OpeningView> {
        self.pending@.map_values(|o: Opening| o@)
    }

    fn open(&mut self, source: IpAddr, ports: &[u16], ttl_nanos: u64) {
        let ghost before = self.openings();
        let mut copy: Vec<u16> = Vec::new();
        copy.extend_from_slice(ports);
        assert(copy@ =~= ports@);
        let opening = Opening { source, ports: copy, ttl_nanos };
        self.pending.push(opening);
        assert(self.openings() =~= before.push(opening@));
    }
}

} // verus!
