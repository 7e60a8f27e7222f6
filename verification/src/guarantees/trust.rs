//! Who is trusted, and with what.

use vstd::prelude::*;

use crate::adapters::ConfigTrust;
use crate::config::{ClientEntry, EntryView, TokenEntry};
use crate::gatekeeper::{Auth, ClientPolicy, TrustStore};
use crate::wire::{Suite, THUMBPRINT_LEN};

verus! {

/// A looked-up policy is that of a client with this key and these ports.
pub open spec fn of_client(r: Option<ClientPolicy>, suite: Suite, key: Seq<u8>, ports: Seq<u16>) -> bool {
    &&& r is Some
    &&& r->0.public_key@ == key
    &&& r->0.allowed_ports@ == ports
    &&& r->0.suite == suite
    &&& r->0.auth == Auth::Signature
    &&& !r->0.single_use
}

/// A looked-up policy is that of a one-time token with this secret and these ports.
pub open spec fn of_token(
    r: Option<ClientPolicy>,
    suite: Suite,
    secret: Seq<u8>,
    ports: Seq<u16>,
) -> bool {
    &&& r is Some
    &&& r->0.public_key@ == secret
    &&& r->0.allowed_ports@ == ports
    &&& r->0.suite == suite
    &&& r->0.auth == Auth::Psk
    &&& r->0.single_use
}

/// Two looked-up policies say the same.
pub open spec fn alike(a: Option<ClientPolicy>, b: Option<ClientPolicy>) -> bool {
    &&& a is Some == b is Some
    &&& a is Some ==> {
        &&& a->0.public_key@ == b->0.public_key@
        &&& a->0.allowed_ports@ == b->0.allowed_ports@
        &&& a->0.suite == b->0.suite
        &&& a->0.auth == b->0.auth
        &&& a->0.single_use == b->0.single_use
    }
}

/// No entry of a list has this id.
pub open spec fn unlisted(entries: Seq<EntryView>, id: Seq<u8>) -> bool {
    forall|i: int| 0 <= i < entries.len() ==> (#[trigger] entries[i]).id != id
}

/// A store that was just made trusts nobody.
pub proof fn law_new_store(
    suite: Suite,
    trust: ConfigTrust,
    id: &[u8; THUMBPRINT_LEN],
    r: Option<ClientPolicy>,
)
    requires
        call_ensures(ConfigTrust::new, (suite,), trust),
        call_ensures(<ConfigTrust as TrustStore>::lookup, (&trust, id), r),
    ensures
        r is None,
        trust.trust_suite() == suite,
        trust.client_list().len() == 0,
        trust.token_list().len() == 0,
        !trust.is_burned(id@),
{
}

/// What a look-up finds: the last client with the id; failing that, the last token
/// with it, unless that was burned; failing that, nothing.
pub proof fn law_lookup(trust: &ConfigTrust, id: &[u8; THUMBPRINT_LEN], r: Option<ClientPolicy>)
    requires
        call_ensures(<ConfigTrust as TrustStore>::lookup, (trust, id), r),
    ensures
        forall|i: int|
            0 <= i < trust.client_list().len() && (#[trigger] trust.client_list()[i]).id == id@ && (
            forall|j: int|
                i < j < trust.client_list().len() ==> (#[trigger] trust.client_list()[j]).id != id@)
                ==> of_client(
                r,
                trust.trust_suite(),
                trust.client_list()[i].key,
                trust.client_list()[i].ports,
            ),
        unlisted(trust.client_list(), id@) && trust.is_burned(id@) ==> r is None,
        unlisted(trust.client_list(), id@) && unlisted(trust.token_list(), id@) ==> r is None,
        forall|i: int|
            unlisted(trust.client_list(), id@) && !trust.is_burned(id@) && 0 <= i
                < trust.token_list().len() && (#[trigger] trust.token_list()[i]).id == id@ && (forall|
                j: int,
            |
                i < j < trust.token_list().len() ==> (#[trigger] trust.token_list()[j]).id != id@)
                ==> of_token(
                r,
                trust.trust_suite(),
                trust.token_list()[i].key,
                trust.token_list()[i].ports,
            ),
{
    crate::adapters::law_last_entry_counts(trust.client_list(), id@);
    crate::adapters::law_last_entry_counts(trust.token_list(), id@);
}

/// Setting the clients authorizes each of them, with its own key and ports; where
/// several share a thumbprint, the last counts. Whoever is not among them is no
/// client.
pub proof fn law_set_then_lookup(
    trust: &mut ConfigTrust,
    clients: &[ClientEntry],
    id: &[u8; THUMBPRINT_LEN],
    r: Option<ClientPolicy>,
)
    requires
        call_ensures(ConfigTrust::set, (trust, clients), ()),
        call_ensures(<ConfigTrust as TrustStore>::lookup, (final(trust), id), r),
    ensures
        forall|i: int|
            0 <= i < clients@.len() && (#[trigger] clients@[i]).thumbprint@ == id@ && (forall|
                j: int,
            |
                i < j < clients@.len() ==> (#[trigger] clients@[j]).thumbprint@ != id@) ==> of_client(
                r,
                old(trust).trust_suite(),
                clients@[i].public_key@,
                clients@[i].ports@,
            ),
        (forall|i: int| 0 <= i < clients@.len() ==> (#[trigger] clients@[i]).thumbprint@ != id@) && r
            is Some ==> r->0.auth == Auth::Psk && r->0.single_use && !old(trust).is_burned(id@),
{
    let list = final(trust).client_list();
    law_lookup(final(trust), id, r);
    lemma_clients_listed(clients@, id@);
    assert forall|i: int|
        0 <= i < clients@.len() && (#[trigger] clients@[i]).thumbprint@ == id@ && (forall|j: int|
            i < j < clients@.len() ==> (#[trigger] clients@[j]).thumbprint@ != id@) implies of_client(
        r,
        old(trust).trust_suite(),
        clients@[i].public_key@,
        clients@[i].ports@,
    ) by {
        assert(list[i] == clients@[i]@);
        assert forall|j: int| i < j < list.len() implies (#[trigger] list[j]).id != id@ by {
            assert(list[j] == clients@[j]@);
        }
    }
    if forall|i: int| 0 <= i < clients@.len() ==> (#[trigger] clients@[i]).thumbprint@ != id@ {
        assert(unlisted(list, id@));
        assert(final(trust).is_burned(id@) == old(trust).is_burned(id@));
        crate::adapters::law_last_entry_counts(list, id@);
    }
}

proof fn lemma_clients_listed(clients: Seq<ClientEntry>, id: Seq<u8>)
    ensures
        crate::config::client_views(clients).len() == clients.len(),
        forall|i: int|
            0 <= i < clients.len() ==> #[trigger] crate::config::client_views(clients)[i]
                == clients[i]@,
        (forall|i: int| 0 <= i < clients.len() ==> (#[trigger] clients[i]).thumbprint@ != id)
            ==> unlisted(crate::config::client_views(clients), id),
{
    let list = crate::config::client_views(clients);
    if forall|i: int| 0 <= i < clients.len() ==> (#[trigger] clients[i]).thumbprint@ != id {
        assert forall|i: int| 0 <= i < list.len() implies (#[trigger] list[i]).id != id by {
            assert(clients[i].thumbprint@ != id);
        }
    }
}

proof fn lemma_tokens_listed(tokens: Seq<TokenEntry>, id: Seq<u8>)
    ensures
        crate::config::token_views(tokens).len() == tokens.len(),
        forall|i: int|
            0 <= i < tokens.len() ==> #[trigger] crate::config::token_views(tokens)[i]
                == tokens[i]@,
        (forall|i: int| 0 <= i < tokens.len() ==> (#[trigger] tokens[i]).token_id@ != id)
            ==> unlisted(crate::config::token_views(tokens), id),
{
    let list = crate::config::token_views(tokens);
    if forall|i: int| 0 <= i < tokens.len() ==> (#[trigger] tokens[i]).token_id@ != id {
        assert forall|i: int| 0 <= i < list.len() implies (#[trigger] list[i]).id != id by {
            assert(tokens[i].token_id@ != id);
        }
    }
}

/// Setting the tokens makes each of them good for one knock, with its own secret and
/// ports, unless it was burned or its id is a client's; where several share an id,
/// the last counts.
pub proof fn law_set_tokens_then_lookup(
    trust: &mut ConfigTrust,
    tokens: &[TokenEntry],
    id: &[u8; THUMBPRINT_LEN],
    r: Option<ClientPolicy>,
)
    requires
        call_ensures(ConfigTrust::set_tokens, (trust, tokens), ()),
        call_ensures(<ConfigTrust as TrustStore>::lookup, (final(trust), id), r),
        unlisted(old(trust).client_list(), id@),
    ensures
        old(trust).is_burned(id@) ==> r is None,
        forall|i: int|
            !old(trust).is_burned(id@) && 0 <= i < tokens@.len() && (
            #[trigger] tokens@[i]).token_id@ == id@ && (forall|j: int|
                i < j < tokens@.len() ==> (#[trigger] tokens@[j]).token_id@ != id@) ==> of_token(
                r,
                old(trust).trust_suite(),
                tokens@[i].secret@,
                tokens@[i].ports@,
            ),
        (forall|i: int| 0 <= i < tokens@.len() ==> (#[trigger] tokens@[i]).token_id@ != id@) ==> r
            is None,
{
    let list = final(trust).token_list();
    law_lookup(final(trust), id, r);
    lemma_tokens_listed(tokens@, id@);
    assert(final(trust).is_burned(id@) == old(trust).is_burned(id@));
    assert forall|i: int|
        !old(trust).is_burned(id@) && 0 <= i < tokens@.len() && (#[trigger] tokens@[i]).token_id@
            == id@ && (forall|j: int|
            i < j < tokens@.len() ==> (#[trigger] tokens@[j]).token_id@ != id@) implies of_token(
        r,
        old(trust).trust_suite(),
        tokens@[i].secret@,
        tokens@[i].ports@,
    ) by {
        assert(list[i] == tokens@[i]@);
        assert forall|j: int| i < j < list.len() implies (#[trigger] list[j]).id != id@ by {
            assert(list[j] == tokens@[j]@);
        }
    }
}

/// Authorizing a client gives it its key and ports, and changes nothing for anybody
/// else.
pub proof fn law_insert_then_lookup(
    trust: &mut ConfigTrust,
    thumbprint: [u8; THUMBPRINT_LEN],
    public_key: Vec<u8>,
    ports: Vec<u16>,
    id: &[u8; THUMBPRINT_LEN],
    earlier: Option<ClientPolicy>,
    later: Option<ClientPolicy>,
)
    requires
        call_ensures(ConfigTrust::insert, (trust, thumbprint, public_key, ports), ()),
        call_ensures(<ConfigTrust as TrustStore>::lookup, (old(trust), id), earlier),
        call_ensures(<ConfigTrust as TrustStore>::lookup, (final(trust), id), later),
    ensures
        id@ == thumbprint@ ==> of_client(later, old(trust).trust_suite(), public_key@, ports@),
        id@ != thumbprint@ ==> alike(later, earlier),
{
    assert(final(trust).policy(id@) == final(trust).policy(id@));
}

/// Burning a token makes it unknown for good, and changes nothing for anybody else.
pub proof fn law_consume_then_lookup(
    trust: &mut ConfigTrust,
    token_id: &[u8; THUMBPRINT_LEN],
    id: &[u8; THUMBPRINT_LEN],
    earlier: Option<ClientPolicy>,
    later: Option<ClientPolicy>,
)
    requires
        call_ensures(<ConfigTrust as TrustStore>::consume, (trust, token_id), ()),
        call_ensures(<ConfigTrust as TrustStore>::lookup, (old(trust), id), earlier),
        call_ensures(<ConfigTrust as TrustStore>::lookup, (final(trust), id), later),
    ensures
        id@ == token_id@ ==> later is None && final(trust).is_burned(token_id@),
        id@ != token_id@ ==> alike(later, earlier) && final(trust).is_burned(id@) == old(
            trust,
        ).is_burned(id@),
{
    assert(final(trust).is_burned(id@) == (old(trust).is_burned(id@) || id@ == token_id@));
}

} // verus!
