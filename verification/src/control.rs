//! What a gate and its control plane tell each other. A gate derives its
//! knock identity from its own key pair, so it cannot report the wrong one.

use vstd::prelude::*;
use vstd::string::*;

use crate::bytes::{same, to_array};
use crate::catalog::join_url;
use crate::hexcode;
use crate::hexcode::HexError;
use crate::text::push_decimal;
use crate::wire::GATE_ID_LEN;

verus! {

/// The body of an identity report. It is made of hexadecimal text, an address
/// and a number, so that nothing needs escaping.
pub open spec fn identity_text(pubkey_hex: Seq<char>, address: Seq<char>, knock_port: u16) -> Seq<
    char,
> {
    "{\"public_key_hex\":\""@ + pubkey_hex + "\",\"address\":\""@ + address + "\",\"knock_port\":"@
        + crate::text::decimal(knock_port as nat) + "}"@
}

pub fn identity_body(pubkey_hex: &str, address: &str, knock_port: u16) -> (r: String)
    ensures
        r@ == identity_text(pubkey_hex@, address@, knock_port),
{
    let mut out = String::from_str("{\"public_key_hex\":\"");
    out.append(pubkey_hex);
    out.append("\",\"address\":\"");
    out.append(address);
    out.append("\",\"knock_port\":");
    push_decimal(&mut out, knock_port as u64);
    out.append("}");
    out
}

/// Where the identity is reported.
pub fn identity_url(base: &str) -> (r: String)
    ensures
        r@ == crate::catalog::trim_slashes(base@) + "/api/gate/identity"@,
{
    join_url(base, "/api/gate/identity")
}

/// Where the bundle is fetched.
pub fn bundle_url(base: &str) -> (r: String)
    ensures
        r@ == crate::catalog::trim_slashes(base@) + "/api/gate/bundle"@,
{
    join_url(base, "/api/gate/bundle")
}

/// Why what the control plane told is of no use.
#[derive(Debug, Clone, Copy, PartialEq, Eq, Structural)]
pub enum ControlError {
    /// A gate id is no hexadecimal text.
    GateIdHex(HexError),
    /// A gate id has this many bytes.
    GateIdLength(usize),
    /// The anchor is no hexadecimal text.
    AnchorHex(HexError),
    /// Neither the configuration nor the control plane gives a gate id.
    NoGateId,
}

impl ControlError {
    /// The error in words.
    pub open spec fn words(self) -> Seq<char> {
        match self {
            ControlError::GateIdHex(e) => "control-plane gate_id: "@ + e.words(),
            ControlError::GateIdLength(got) => "control-plane gate_id: expected "@
                + crate::text::decimal(GATE_ID_LEN as nat) + " bytes, got "@
                + crate::text::decimal(got as nat),
            ControlError::AnchorHex(e) => "control-plane config_anchor: "@ + e.words(),
            ControlError::NoGateId =>
                "no gate_id: set gate_id_hex, or configure [control_plane]"@,
        }
    }

    pub fn message(&self) -> (r: String)
        ensures
            r@ == self.words(),
    {
        match self {
            ControlError::GateIdHex(e) => {
                let mut out = String::from_str("control-plane gate_id: ");
                out.append(e.message().as_str());
                out
            },
            ControlError::GateIdLength(got) => {
                let mut out = String::from_str("control-plane gate_id: expected ");
                push_decimal(&mut out, GATE_ID_LEN as u64);
                out.append(" bytes, got ");
                push_decimal(&mut out, *got as u64);
                out
            },
            ControlError::AnchorHex(e) => {
                let mut out = String::from_str("control-plane config_anchor: ");
                out.append(e.message().as_str());
                out
            },
            ControlError::NoGateId => String::from_str(
                "no gate_id: set gate_id_hex, or configure [control_plane]",
            ),
        }
    }
}

/// A gate id that the control plane spells in hexadecimal.
pub open spec fn gate_id_told(text: Seq<char>) -> Result<Seq<u8>, ControlError> {
    match hexcode::unhexed(text) {
        Err(e) => Err(ControlError::GateIdHex(e)),
        Ok(bytes) => if bytes.len() == GATE_ID_LEN {
            Ok(bytes)
        } else {
            Err(ControlError::GateIdLength(bytes.len() as usize))
        },
    }
}

/// Decode a gate id from the control plane.
pub fn parse_gate_id(text: &str) -> (r: Result<[u8; GATE_ID_LEN], ControlError>)
    ensures
        match r {
            Ok(id) => gate_id_told(text@) == Ok::<Seq<u8>, ControlError>(id@),
            Err(e) => gate_id_told(text@) == Err::<Seq<u8>, ControlError>(e),
        },
{
    match hexcode::decode(text) {
        Ok(bytes) => {
            if bytes.len() != GATE_ID_LEN {
                return Err(ControlError::GateIdLength(bytes.len()));
            }
            Ok(to_array::<GATE_ID_LEN>(bytes.as_slice()))
        },
        Err(e) => Err(ControlError::GateIdHex(e)),
    }
}

/// The anchor to verify bundles with: the pinned one, else the one that the
/// control plane told, if either is there.
pub fn settle_anchor(pinned: Option<Vec<u8>>, told: Option<&str>) -> (r: Result<
    Option<Vec<u8>>,
    ControlError,
>)
    ensures
        match (pinned, told) {
            (Some(anchor), _) => r == Ok::<Option<Vec<u8>>, ControlError>(Some(anchor)),
            (None, None) => r == Ok::<Option<Vec<u8>>, ControlError>(None),
            (None, Some(text)) => match hexcode::unhexed(text@) {
                Ok(bytes) => r is Ok && r->Ok_0 is Some && r->Ok_0->0@ == bytes,
                Err(e) => r == Err::<Option<Vec<u8>>, ControlError>(ControlError::AnchorHex(e)),
            },
        },
{
    match pinned {
        Some(anchor) => Ok(Some(anchor)),
        None => match told {
            None => Ok(None),
            Some(text) => match hexcode::decode(text) {
                Ok(bytes) => Ok(Some(bytes)),
                Err(e) => Err(ControlError::AnchorHex(e)),
            },
        },
    }
}

/// Which id a gate has: the configured one, else the one that the control plane told.
pub fn settle_gate_id(configured: Option<[u8; GATE_ID_LEN]>, told: Option<&str>) -> (r: Result<
    [u8; GATE_ID_LEN],
    ControlError,
>)
    ensures
        match (configured, told) {
            (Some(id), _) => r == Ok::<[u8; GATE_ID_LEN], ControlError>(id),
            (None, None) => r == Err::<[u8; GATE_ID_LEN], ControlError>(ControlError::NoGateId),
            (None, Some(text)) => match r {
                Ok(id) => gate_id_told(text@) == Ok::<Seq<u8>, ControlError>(id@),
                Err(e) => gate_id_told(text@) == Err::<Seq<u8>, ControlError>(e),
            },
        },
{
    match configured {
        Some(id) => Ok(id),
        None => match told {
            None => Err(ControlError::NoGateId),
            Some(text) => parse_gate_id(text),
        },
    }
}

/// Whether the policy comes from a signed bundle: only where there is an anchor
/// to verify it with and a place to read it from.
pub fn uses_bundle(anchor: &Option<Vec<u8>>, bundle_path: &Option<String>) -> (r: bool)
    ensures
        r == (*anchor is Some && *bundle_path is Some),
{
    anchor.is_some() && bundle_path.is_some()
}

/// An error and its causes, outermost first.
pub open spec fn causes_text(causes: Seq<String>) -> Seq<char>
    decreases causes.len(),
{
    if causes.len() == 0 {
        Seq::empty()
    } else if causes.len() == 1 {
        causes[0]@
    } else {
        causes_text(causes.drop_last()) + ": "@ + causes.last()@
    }
}

/// Flatten an error and its causes into one line.
pub fn chain(causes: &[String]) -> (out: String)
    ensures
        out@ == causes_text(causes@),
{
    let mut out = String::new();
    if causes.len() == 0 {
        return out;
    }
    out.append(causes[0].as_str());
    let mut i: usize = 1;
    assert(out@ =~= causes_text(causes@.take(1)));
    while i < causes.len()
        invariant
            1 <= i <= causes@.len(),
            out@ == causes_text(causes@.take(i as int)),
        decreases causes@.len() - i,
    {
        out.append(": ");
        out.append(causes[i].as_str());
        proof {
            assert(causes@.take(i + 1).drop_last() =~= causes@.take(i as int));
            assert(out@ =~= causes_text(causes@.take(i + 1)));
        }
        i += 1;
    }
    assert(causes@.take(i as int) =~= causes@);
    out
}

/// Whether a fetched bundle differs from the one on disk, so that writing it is
/// not needless.
pub fn bundle_changed(existing: Option<&[u8]>, fetched: &[u8]) -> (r: bool)
    ensures
        r == match existing {
            Some(bytes) => bytes@ != fetched@,
            None => true,
        },
{
    match existing {
        Some(bytes) => !same(bytes, fetched),
        None => true,
    }
}

} // verus!
