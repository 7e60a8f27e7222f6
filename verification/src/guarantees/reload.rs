//! Putting a newer policy into force.

use vstd::prelude::*;
use vstd::string::*;

use crate::adapters::ConfigTrust;
use crate::bundle::Bundle;
use crate::gatekeeper::{ClientPolicy, TrustStore};
use crate::watch::{Outcome, Watch};
use crate::wire::THUMBPRINT_LEN;

verus! {

/// A bundle that did not verify, or is no newer than the one in force, changes
/// nothing; the outcome says which of the two it was.
pub proof fn law_stale_bundle_changes_nothing(
    watch: &mut Watch,
    trust: &mut ConfigTrust,
    loaded: Result<Bundle, String>,
    outcome: Outcome,
)
    requires
        call_ensures(Watch::apply, (watch, trust, loaded), outcome),
        loaded matches Ok(bundle) ==> bundle.generation <= old(watch).generation(),
    ensures
        *final(watch) == *old(watch),
        *final(trust) == *old(trust),
        match loaded {
            Err(words) => outcome matches Outcome::Rejected(told) && told@ == words@,
            Ok(bundle) => outcome == (Outcome::Ignored {
                generation: bundle.generation,
                applied: old(watch).generation(),
            }),
        },
{
}

/// A newer bundle is put into force whole: its generation, its ports, all of its
/// clients and all of its tokens.
pub proof fn law_newer_bundle_is_applied(
    watch: &mut Watch,
    trust: &mut ConfigTrust,
    bundle: Bundle,
    outcome: Outcome,
)
    requires
        call_ensures(Watch::apply, (watch, trust, Ok::<Bundle, String>(bundle)), outcome),
        bundle.generation > old(watch).generation(),
    ensures
        final(watch).generation() == bundle.generation,
        final(watch).modified() == old(watch).modified(),
        forall|port: u16| #[trigger]
            final(watch).ports().contains(port) == bundle.protected_ports@.contains(port),
        final(trust).trust_suite() == old(trust).trust_suite(),
        forall|id: Seq<u8>| #[trigger]
            final(trust).is_burned(id) == old(trust).is_burned(id),
        final(trust).client_list().len() == bundle.clients@.len(),
        forall|i: int|
            0 <= i < bundle.clients@.len() ==> {
                &&& (#[trigger] final(trust).client_list()[i]).id
                    == bundle.clients@[i].thumbprint@
                &&& final(trust).client_list()[i].key == bundle.clients@[i].public_key@
                &&& final(trust).client_list()[i].ports == bundle.clients@[i].ports@
            },
        final(trust).token_list().len() == bundle.tokens@.len(),
        forall|i: int|
            0 <= i < bundle.tokens@.len() ==> {
                &&& (#[trigger] final(trust).token_list()[i]).id == bundle.tokens@[i].token_id@
                &&& final(trust).token_list()[i].key == bundle.tokens@[i].secret@
                &&& final(trust).token_list()[i].ports == bundle.tokens@[i].ports@
            },
        match outcome {
            Outcome::Applied { add, remove } => {
                &&& add@.no_duplicates()
                &&& remove@.no_duplicates()
                &&& forall|port: u16| #[trigger]
                    add@.contains(port) == (bundle.protected_ports@.contains(port) && !old(
                        watch,
                    ).ports().contains(port))
                &&& forall|port: u16| #[trigger]
                    remove@.contains(port) == (old(watch).ports().contains(port)
                        && !bundle.protected_ports@.contains(port))
            },
            _ => false,
        },
{
    assert forall|port: u16| #[trigger]
        final(watch).ports().contains(port) == bundle.protected_ports@.contains(port) by {
        assert(bundle.protected_ports@.to_set().contains(port)
            == bundle.protected_ports@.contains(port));
    }
    if let Outcome::Applied { add, remove } = outcome {
        assert forall|port: u16| #[trigger]
            add@.contains(port) == (bundle.protected_ports@.contains(port) && !old(
                watch,
            ).ports().contains(port)) by {
            assert(add@.to_set().contains(port) == add@.contains(port));
            assert(final(watch).ports().contains(port) == bundle.protected_ports@.contains(port));
        }
        assert forall|port: u16| #[trigger]
            remove@.contains(port) == (old(watch).ports().contains(port)
                && !bundle.protected_ports@.contains(port)) by {
            assert(remove@.to_set().contains(port) == remove@.contains(port));
            assert(final(watch).ports().contains(port) == bundle.protected_ports@.contains(port));
        }
    }
}

/// Once a newer bundle is in force, each client that it lists is known with its key
/// and ports, each token that it lists and that was not used is good for one knock,
/// and whoever it does not list is unknown. Where entries share an id, the last
/// counts, and clients come before tokens.
pub proof fn law_applied_bundle_authorizes(
    watch: &mut Watch,
    trust: &mut ConfigTrust,
    bundle: Bundle,
    outcome: Outcome,
    id: &[u8; THUMBPRINT_LEN],
    r: Option<ClientPolicy>,
)
    requires
        call_ensures(Watch::apply, (watch, trust, Ok::<Bundle, String>(bundle)), outcome),
        bundle.generation > old(watch).generation(),
        call_ensures(<ConfigTrust as TrustStore>::lookup, (final(trust), id), r),
    ensures
        forall|i: int|
            0 <= i < bundle.clients@.len() && (#[trigger] bundle.clients@[i]).thumbprint@ == id@ && (
            forall|j: int|
                i < j < bundle.clients@.len() ==> (#[trigger] bundle.clients@[j]).thumbprint@
                    != id@) ==> crate::guarantees::trust::of_client(
                r,
                old(trust).trust_suite(),
                bundle.clients@[i].public_key@,
                bundle.clients@[i].ports@,
            ),
        (forall|i: int|
            0 <= i < bundle.clients@.len() ==> (#[trigger] bundle.clients@[i]).thumbprint@ != id@)
            ==> {
            &&& old(trust).is_burned(id@) ==> r is None
            &&& (forall|i: int|
                0 <= i < bundle.tokens@.len() ==> (#[trigger] bundle.tokens@[i]).token_id@ != id@)
                ==> r is None
            &&& forall|i: int|
                !old(trust).is_burned(id@) && 0 <= i < bundle.tokens@.len() && (
                #[trigger] bundle.tokens@[i]).token_id@ == id@ && (forall|j: int|
                    i < j < bundle.tokens@.len() ==> (#[trigger] bundle.tokens@[j]).token_id@
                        != id@) ==> crate::guarantees::trust::of_token(
                    r,
                    old(trust).trust_suite(),
                    bundle.tokens@[i].secret@,
                    bundle.tokens@[i].ports@,
                )
        },
{
    law_newer_bundle_is_applied(watch, trust, bundle, outcome);
    crate::guarantees::trust::law_lookup(final(trust), id, r);
    assert(final(trust).is_burned(id@) == old(trust).is_burned(id@));
    let clients = final(trust).client_list();
    let tokens = final(trust).token_list();
    assert forall|i: int|
        0 <= i < bundle.clients@.len() && (#[trigger] bundle.clients@[i]).thumbprint@ == id@ && (
        forall|j: int|
            i < j < bundle.clients@.len() ==> (#[trigger] bundle.clients@[j]).thumbprint@
                != id@) implies crate::guarantees::trust::of_client(
        r,
        old(trust).trust_suite(),
        bundle.clients@[i].public_key@,
        bundle.clients@[i].ports@,
    ) by {
        assert(clients[i].id == id@);
        assert forall|j: int| i < j < clients.len() implies (#[trigger] clients[j]).id != id@ by {
            assert(bundle.clients@[j].thumbprint@ != id@);
        }
    }
    if forall|i: int|
        0 <= i < bundle.clients@.len() ==> (#[trigger] bundle.clients@[i]).thumbprint@ != id@ {
        assert forall|i: int| 0 <= i < clients.len() implies (#[trigger] clients[i]).id != id@ by {
            assert(bundle.clients@[i].thumbprint@ != id@);
        }
        assert(crate::guarantees::trust::unlisted(clients, id@));
        if forall|i: int|
            0 <= i < bundle.tokens@.len() ==> (#[trigger] bundle.tokens@[i]).token_id@ != id@ {
            assert forall|i: int| 0 <= i < tokens.len() implies (#[trigger] tokens[i]).id != id@ by {
                assert(bundle.tokens@[i].token_id@ != id@);
            }
            assert(crate::guarantees::trust::unlisted(tokens, id@));
        }
        assert forall|i: int|
            !old(trust).is_burned(id@) && 0 <= i < bundle.tokens@.len() && (
            #[trigger] bundle.tokens@[i]).token_id@ == id@ && (forall|j: int|
                i < j < bundle.tokens@.len() ==> (#[trigger] bundle.tokens@[j]).token_id@
                    != id@) implies crate::guarantees::trust::of_token(
            r,
            old(trust).trust_suite(),
            bundle.tokens@[i].secret@,
            bundle.tokens@[i].ports@,
        ) by {
            assert(tokens[i].id == id@);
            assert forall|j: int| i < j < tokens.len() implies (#[trigger] tokens[j]).id != id@ by {
                assert(bundle.tokens@[j].token_id@ != id@);
            }
        }
    }
}

/// A policy is watched on from what is in force.
pub proof fn law_new_watch(modified: Option<i128>, ports: Vec<u16>, generation: u64, watch: Watch)
    requires
        call_ensures(Watch::new, (modified, ports, generation), watch),
    ensures
        watch.modified() == modified,
        watch.generation() == generation,
        forall|port: u16| #[trigger] watch.ports().contains(port) == ports@.contains(port),
{
    assert forall|port: u16| #[trigger] watch.ports().contains(port) == ports@.contains(
        port,
    ) by {
        assert(ports@.to_set().contains(port) == ports@.contains(port));
    }
}

/// The file is loaded again exactly if its time can be read and is not the one that
/// was last seen.
pub proof fn law_changed(watch: &mut Watch, modified: Option<i128>, r: bool)
    requires
        call_ensures(Watch::changed, (watch, modified), r),
    ensures
        r == (modified is Some && old(watch).modified() != modified),
        r ==> final(watch).modified() == modified,
        !r ==> final(watch).modified() == old(watch).modified(),
        final(watch).generation() == old(watch).generation(),
        final(watch).ports() == old(watch).ports(),
{
}

} // verus!
