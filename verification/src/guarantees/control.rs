//! What a gate and its control plane tell each other.

use vstd::prelude::*;
use vstd::string::*;

use crate::control::{
    bundle_changed, bundle_url, chain, identity_body, identity_url, parse_gate_id, settle_anchor,
    settle_gate_id, uses_bundle, ControlError,
};
use crate::hexcode;
use crate::wire::GATE_ID_LEN;

verus! {

/// A gate reports its key, its address and its knock port.
pub proof fn law_identity_body(pubkey_hex: &str, address: &str, knock_port: u16, r: String)
    requires
        call_ensures(identity_body, (pubkey_hex, address, knock_port), r),
    ensures
        r@ == "{\"public_key_hex\":\""@ + pubkey_hex@ + "\",\"address\":\""@ + address@
            + "\",\"knock_port\":"@ + crate::text::decimal(knock_port as nat) + "}"@,
{
}

/// Where a gate reports, and where it fetches its bundle.
pub proof fn law_urls(base: &str, identity: String, bundle: String)
    requires
        call_ensures(identity_url, (base,), identity),
        call_ensures(bundle_url, (base,), bundle),
    ensures
        exists|address: Seq<char>| #[trigger]
            crate::guarantees::reporting::unslashed(base@, address) && identity@ == address
                + "/api/gate/identity"@ && bundle@ == address + "/api/gate/bundle"@,
{
    crate::guarantees::reporting::lemma_unslashed(base@);
}

/// What a told id is read as: sixteen bytes in hexadecimal, or what is wrong with it.
pub open spec fn id_read(text: Seq<char>, r: Result<[u8; GATE_ID_LEN], ControlError>) -> bool {
    match hexcode::unhexed(text) {
        Err(why) => r == Err::<[u8; GATE_ID_LEN], ControlError>(ControlError::GateIdHex(why)),
        Ok(bytes) => if bytes.len() == 16 {
            r is Ok && r->Ok_0@ == bytes
        } else {
            r is Err && r->Err_0 is GateIdLength && r->Err_0->GateIdLength_0 == bytes.len() as usize
        },
    }
}

/// A told id is read as what it spells.
pub proof fn law_parse_gate_id(text: &str, r: Result<[u8; GATE_ID_LEN], ControlError>)
    requires
        call_ensures(parse_gate_id, (text,), r),
    ensures
        id_read(text@, r),
{
}

/// What is configured counts before what is told.
pub proof fn law_settle_gate_id(
    configured: Option<[u8; GATE_ID_LEN]>,
    told: Option<&str>,
    r: Result<[u8; GATE_ID_LEN], ControlError>,
)
    requires
        call_ensures(settle_gate_id, (configured, told), r),
    ensures
        configured is Some ==> r is Ok && r->Ok_0@ == configured->0@,
        configured is None && told is Some ==> id_read(told->0@, r),
        configured is None && told is None ==> r == Err::<[u8; GATE_ID_LEN], ControlError>(
            ControlError::NoGateId,
        ),
{
}

/// A pinned anchor counts before one that is told.
pub proof fn law_settle_anchor(
    pinned: Option<Vec<u8>>,
    told: Option<&str>,
    r: Result<Option<Vec<u8>>, ControlError>,
)
    requires
        call_ensures(settle_anchor, (pinned, told), r),
    ensures
        pinned is Some ==> r is Ok && r->Ok_0 is Some && r->Ok_0->0@ == pinned->0@,
        pinned is None && told is None ==> r is Ok && r->Ok_0 is None,
        pinned is None && told is Some ==> match hexcode::unhexed(told->0@) {
            Ok(bytes) => r is Ok && r->Ok_0 is Some && r->Ok_0->0@ == bytes,
            Err(why) => r == Err::<Option<Vec<u8>>, ControlError>(ControlError::AnchorHex(why)),
        },
{
}

/// A bundle is used only where it can be read and verified.
pub proof fn law_uses_bundle(anchor: &Option<Vec<u8>>, path: &Option<String>, r: bool)
    requires
        call_ensures(uses_bundle, (anchor, path), r),
    ensures
        *anchor is None ==> !r,
        *path is None ==> !r,
        *anchor is Some && *path is Some ==> r,
{
}

/// A bundle is written to disk unless the same bytes are there.
pub proof fn law_bundle_changed(existing: Option<&[u8]>, fetched: &[u8], r: bool)
    requires
        call_ensures(bundle_changed, (existing, fetched), r),
    ensures
        existing is None ==> r,
        existing is Some ==> r == (existing->0@ != fetched@),
{
}

proof fn lemma_causes(causes: Seq<String>)
    requires
        causes.len() > 0,
    ensures
        crate::control::causes_text(causes) == causes[0]@ + causes.skip(1).map_values(
            |cause: String| ": "@ + cause@,
        ).flatten(),
    decreases causes.len(),
{
    let all = causes.skip(1).map_values(|cause: String| ": "@ + cause@);
    if causes.len() > 1 {
        let less = causes.drop_last();
        lemma_causes(less);
        let front = less.skip(1).map_values(|cause: String| ": "@ + cause@);
        let last = ": "@ + causes.last()@;
        assert(all =~= front.push(last));
        front.lemma_flatten_push(last);
        assert(crate::control::causes_text(causes) =~= causes[0]@ + all.flatten());
    } else {
        assert(all =~= Seq::empty());
        assert(crate::control::causes_text(causes) =~= causes[0]@ + all.flatten());
    }
}

/// An error is told with each of its causes, in order.
pub proof fn law_chain(causes: &[String], out: String)
    requires
        call_ensures(chain, (causes,), out),
    ensures
        causes@.len() == 0 ==> out@.len() == 0,
        causes@.len() > 0 ==> out@ == causes@[0]@ + causes@.skip(1).map_values(
            |cause: String| ": "@ + cause@,
        ).flatten(),
{
    if causes@.len() > 0 {
        lemma_causes(causes@);
    }
}

} // verus!
