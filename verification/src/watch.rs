//! Hot reload of signed bundles: notice that the file changed, refuse what does
//! not verify or is not newer, and put the rest into force.

use vstd::prelude::*;
use vstd::string::*;

use crate::adapters::ConfigTrust;
use crate::bundle::{Bundle, BundleView};
use crate::config::{ClientEntry, EntryView, TokenEntry};
use crate::gatekeeper::{contains_port, TrustStore};

verus! {

/// What is enforced.
#[verifier::ext_equal]
pub struct PolicyState {
    pub generation: u64,
    pub ports: Set<u16>,
    pub clients: Seq<EntryView>,
    pub tokens: Seq<EntryView>,
}

/// What is enforced after a look at the bundle file. `None` is a file
/// that did not verify. Only a newer generation changes anything.
pub open spec fn reloaded(state: PolicyState, loaded: Option<BundleView>) -> PolicyState {
    match loaded {
        Some(bundle) if bundle.generation > state.generation => PolicyState {
            generation: bundle.generation,
            ports: bundle.ports.to_set(),
            clients: bundle.clients,
            tokens: bundle.tokens,
        },
        _ => state,
    }
}

/// What came of a look at a changed bundle file.
pub enum Outcome {
    /// The file did not verify, or did not parse; the words say why.
    Rejected(String),
    /// The bundle is no newer than the one in force.
    Ignored { generation: u64, applied: u64 },
    /// The bundle is in force. The protected ports to add to the packet filter
    /// and those to remove from it.
    Applied { add: Vec<u16>, remove: Vec<u16> },
}

/// The watcher's own state.
pub struct Watch {
    last_modified: Option<i128>,
    known_ports: Vec<u16>,
    applied_gen: u64,
}

/// The ports of `a` that are not in `b`, each once.
fn difference(a: &[u16], b: &[u16]) -> (r: Vec<u16>)
    ensures
        r@.to_set() == a@.to_set().difference(b@.to_set()),
        r@.no_duplicates(),
{
    let mut r: Vec<u16> = Vec::new();
    let mut i: usize = 0;
    while i < a.len()
        invariant
            i <= a@.len(),
            r@.no_duplicates(),
            forall|p: u16| #[trigger]
                r@.contains(p) <==> a@.take(i as int).contains(p) && !b@.contains(p),
        decreases a@.len() - i,
    {
        let p: u16 = a[i];
        let ghost before = r@;
        if !contains_port(b, p) && !contains_port(r.as_slice(), p) {
            r.push(p);
        }
        proof {
            let taken = a@.take(i as int);
            let now = a@.take(i + 1);
            assert(now =~= taken.push(p));
            assert forall|q: u16| #[trigger]
                r@.contains(q) <==> now.contains(q) && !b@.contains(q) by {
                assert(now.contains(q) <==> taken.contains(q) || q == p) by {
                    if taken.contains(q) {
                        let k = choose|k: int| 0 <= k < taken.len() && taken[k] == q;
                        assert(now[k] == q);
                    }
                    assert(now[taken.len() as int] == p);
                }
                assert(before.contains(q) <==> taken.contains(q) && !b@.contains(q));
                if before.contains(q) {
                    let k = choose|k: int| 0 <= k < before.len() && before[k] == q;
                    assert(r@[k] == q);
                }
                if r@.len() > before.len() {
                    assert(r@[before.len() as int] == p);
                }
            }
        }
        i += 1;
    }
    proof {
        assert(a@.take(i as int) =~= a@);
        assert(r@.to_set() =~= a@.to_set().difference(b@.to_set()));
    }
    r
}

impl Watch {
    pub closed spec fn modified(self) -> Option<i128> {
        self.last_modified
    }

    /// The protected ports that the packet filter was last told.
    pub closed spec fn ports(self) -> Set<u16> {
        self.known_ports@.to_set()
    }

    /// The generation in force.
    pub closed spec fn generation(self) -> u64 {
        self.applied_gen
    }

    /// What is enforced, with the trust store that this watcher feeds.
    pub open spec fn policy(self, trust: ConfigTrust) -> PolicyState {
        PolicyState {
            generation: self.generation(),
            ports: self.ports(),
            clients: trust.client_list(),
            tokens: trust.token_list(),
        }
    }

    /// Watch on from the bundle that is in force. `modified` is when the file was
    /// last modified, if that is known.
    pub fn new(modified: Option<i128>, known_ports: Vec<u16>, applied_gen: u64) -> (r: Self)
        ensures
            r.modified() == modified,
            r.ports() == known_ports@.to_set(),
            r.generation() == applied_gen,
    {
        Watch { last_modified: modified, known_ports, applied_gen }
    }

    /// Whether the file must be loaded again, given when it was last modified. A
    /// file whose time cannot be read is left alone.
    pub fn changed(&mut self, modified: Option<i128>) -> (r: bool)
        ensures
            r == (modified is Some && modified != old(self).modified()),
            final(self).modified() == if r {
                modified
            } else {
                old(self).modified()
            },
            final(self).ports() == old(self).ports(),
            final(self).generation() == old(self).generation(),
    {
        let time: i128 = match modified {
            Some(time) => time,
            None => {
                return false;
            },
        };
        if let Some(last) = self.last_modified {
            if last == time {
                return false;
            }
        }
        self.last_modified = Some(time);
        true
    }

    /// Put a loaded bundle into force, if it verified and is newer than the one
    /// in force; else leave everything as it is.
    pub fn apply(&mut self, trust: &mut ConfigTrust, loaded: Result<Bundle, String>) -> (r: Outcome)
        ensures
            final(self).policy(*final(trust)) == reloaded(
                old(self).policy(*old(trust)),
                match loaded {
                    Ok(bundle) => Some(bundle@),
                    Err(_) => None,
                },
            ),
            final(self).modified() == old(self).modified(),
            final(trust).trust_suite() == old(trust).trust_suite(),
            forall|id: Seq<u8>| #[trigger]
                final(trust).is_burned(id) == old(trust).is_burned(id),
            match r {
                Outcome::Rejected(words) => loaded is Err && words@ == loaded->Err_0@,
                Outcome::Ignored { generation, applied } => {
                    &&& loaded is Ok
                    &&& generation == loaded->Ok_0.generation
                    &&& applied == old(self).generation()
                    &&& generation <= applied
                },
                Outcome::Applied { add, remove } => {
                    &&& loaded is Ok
                    &&& loaded->Ok_0.generation > old(self).generation()
                    &&& add@.to_set() == final(self).ports().difference(old(self).ports())
                    &&& remove@.to_set() == old(self).ports().difference(final(self).ports())
                    &&& add@.no_duplicates()
                    &&& remove@.no_duplicates()
                },
            },
            !(r is Applied) ==> *final(self) == *old(self) && *final(trust) == *old(trust),
            (r is Applied) == (loaded is Ok && loaded->Ok_0.generation > old(self).generation()),
            r is Applied ==> {
                &&& final(self).generation() == loaded->Ok_0.generation
                &&& final(self).ports() == loaded->Ok_0.protected_ports@.to_set()
                &&& final(trust).client_list() == loaded->Ok_0.clients@.map_values(
                    |c: ClientEntry| c@,
                )
                &&& final(trust).token_list() == loaded->Ok_0.tokens@.map_values(
                    |t: TokenEntry| t@,
                )
            },
    {
        let bundle = match loaded {
            Ok(bundle) => bundle,
            Err(words) => {
                return Outcome::Rejected(words);
            },
        };
        if bundle.generation <= self.applied_gen {
            return Outcome::Ignored { generation: bundle.generation, applied: self.applied_gen };
        }
        trust.set(bundle.clients.as_slice());
        trust.set_tokens(bundle.tokens.as_slice());
        let add = difference(bundle.protected_ports.as_slice(), self.known_ports.as_slice());
        let remove = difference(self.known_ports.as_slice(), bundle.protected_ports.as_slice());
        self.known_ports = bundle.protected_ports;
        self.applied_gen = bundle.generation;
        Outcome::Applied { add, remove }
    }
}

/// What is enforced after a row of looks at the bundle file.
pub open spec fn reloaded_all(state: PolicyState, loads: Seq<Option<BundleView>>) -> PolicyState
    decreases loads.len(),
{
    if loads.len() == 0 {
        state
    } else {
        reloaded(reloaded_all(state, loads.drop_last()), loads.last())
    }
}

/// No rollback: the generation in force never falls, and is at least that of
/// every bundle that verified.
pub proof fn law_no_rollback(state: PolicyState, loads: Seq<Option<BundleView>>, i: int)
    requires
        0 <= i <= loads.len(),
    ensures
        reloaded_all(state, loads).generation >= reloaded_all(state, loads.take(i)).generation,
        reloaded_all(state, loads).generation >= state.generation,
        forall|k: int|
            0 <= k < loads.len() && (#[trigger] loads[k]) is Some ==> reloaded_all(
                state,
                loads,
            ).generation >= loads[k]->0.generation,
    decreases loads.len(),
{
    if loads.len() > 0 {
        let front = loads.drop_last();
        if i == loads.len() {
            assert(loads.take(i) =~= loads);
            law_no_rollback(state, front, 0);
        } else {
            assert(front.take(i) =~= loads.take(i));
            law_no_rollback(state, front, i);
        }
        assert forall|k: int| 0 <= k < loads.len() && (#[trigger] loads[k]) is Some implies
            reloaded_all(state, loads).generation >= loads[k]->0.generation by {
            if k < front.len() {
                assert(front[k] == loads[k]);
            }
        }
    } else {
        assert(loads.take(i) =~= loads);
    }
}

/// The last good policy stays in force: files that do not verify, or are no
/// newer, change nothing.
pub proof fn law_last_good_retained(state: PolicyState, loads: Seq<Option<BundleView>>)
    requires
        forall|k: int|
            0 <= k < loads.len() && (#[trigger] loads[k]) is Some ==> loads[k]->0.generation
                <= state.generation,
    ensures
        reloaded_all(state, loads) == state,
    decreases loads.len(),
{
    if loads.len() > 0 {
        let front = loads.drop_last();
        assert forall|k: int| 0 <= k < front.len() && (#[trigger] front[k]) is Some implies
            front[k]->0.generation <= state.generation by {
            assert(front[k] == loads[k]);
        }
        law_last_good_retained(state, front);
        assert(loads[loads.len() - 1] == loads.last());
    }
}

/// Carrying out the changes takes the packet filter's table from the old ports
/// to exactly the new ones.
pub proof fn law_ports_follow_bundle(old_ports: Set<u16>, new_ports: Set<u16>)
    ensures
        old_ports.union(new_ports.difference(old_ports)).difference(
            old_ports.difference(new_ports),
        ) == new_ports,
{
    assert(old_ports.union(new_ports.difference(old_ports)).difference(
        old_ports.difference(new_ports),
    ) =~= new_ports);
}

/// Revocation: once a bundle that lists an id neither as a client nor as a token
/// is in force, that id is unknown.
pub proof fn law_unlisted_client_is_revoked(
    watch: Watch,
    trust: ConfigTrust,
    state: PolicyState,
    bundle: BundleView,
    id: Seq<u8>,
)
    requires
        bundle.generation > state.generation,
        watch.policy(trust) == reloaded(state, Some(bundle)),
        crate::adapters::entry_for(bundle.clients, id) is None,
        crate::adapters::entry_for(bundle.tokens, id) is None,
    ensures
        trust.policy(id) is None,
{
}

} // verus!
