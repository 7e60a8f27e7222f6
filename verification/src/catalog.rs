//! The client catalog: the services that a device may reach, as the control
//! plane tells them. The request is authenticated by a signature of the device's
//! knock key.

use vstd::prelude::*;
use vstd::string::*;

use crate::bytes::to_array;
use crate::client::{parse_suite, Error, ErrorView, Knocker};
use crate::envelope::CryptoError;
use crate::hexcode;
use crate::identity::ClientKey;
use crate::text::{find, push_chars, push_decimal, to_chars};
use crate::wire::{Suite, GATE_ID_LEN};

verus! {

#[derive(Debug)]
pub struct Catalog {
    pub device: Device,
    pub mesh_cidr: String,
    pub services: Vec<Service>,
}

#[derive(Debug)]
pub struct Device {
    pub name: String,
    pub thumbprint: String,
}

#[derive(Debug)]
pub struct Service {
    pub name: String,
    pub mesh_ip: String,
    pub endpoints: Vec<Endpoint>,
}

#[derive(Debug)]
pub struct Endpoint {
    pub protocol: String,
    pub port: u16,
    pub address: String,
    pub descriptor: Descriptor,
}

/// What is needed to knock at one gate.
#[derive(Debug)]
pub struct Descriptor {
    pub gate_id_hex: String,
    pub gate_pubkey_hex: String,
    pub suite: String,
    pub address: String,
    pub knock_port: u16,
}

/// Where knocks for a gate go. A bare IPv6 literal is bracketed.
pub open spec fn knock_target(address: Seq<char>, knock_port: u16) -> Seq<char> {
    if crate::text::first_of(address, ':') < address.len() {
        "["@ + address + "]:"@ + crate::text::decimal(knock_port as nat)
    } else {
        address + ":"@ + crate::text::decimal(knock_port as nat)
    }
}

/// The bytes of a hexadecimal field of a descriptor.
pub open spec fn hex_field(text: Seq<char>) -> Result<Seq<u8>, ErrorView> {
    match hexcode::unhexed(text) {
        Ok(bytes) => Ok(bytes),
        Err(e) => Err(ErrorView::Format(e.words())),
    }
}

/// A gate id of a descriptor.
pub open spec fn gate_id_field(text: Seq<char>) -> Result<Seq<u8>, ErrorView> {
    match hex_field(text) {
        Ok(bytes) => if bytes.len() == GATE_ID_LEN {
            Ok(bytes)
        } else {
            Err(
                ErrorView::Format(
                    "gate_id_hex: expected "@ + crate::text::decimal(GATE_ID_LEN as nat)
                        + " bytes, got "@ + crate::text::decimal(bytes.len()),
                ),
            )
        },
        Err(e) => Err(e),
    }
}

fn hex_text(text: &str) -> (r: Result<Vec<u8>, Error>)
    ensures
        match r {
            Ok(bytes) => hex_field(text@) == Ok::<Seq<u8>, ErrorView>(bytes@),
            Err(e) => hex_field(text@) == Err::<Seq<u8>, ErrorView>(e@),
        },
{
    match hexcode::decode(text) {
        Ok(bytes) => Ok(bytes),
        Err(e) => Err(Error::Format(e.message())),
    }
}

fn gate_id_arr(s: &str) -> (r: Result<[u8; GATE_ID_LEN], Error>)
    ensures
        match r {
            Ok(id) => gate_id_field(s@) == Ok::<Seq<u8>, ErrorView>(id@),
            Err(e) => gate_id_field(s@) == Err::<Seq<u8>, ErrorView>(e@),
        },
{
    let b = hex_text(s)?;
    if b.len() != GATE_ID_LEN {
        let mut words = String::from_str("gate_id_hex: expected ");
        push_decimal(&mut words, GATE_ID_LEN as u64);
        words.append(" bytes, got ");
        push_decimal(&mut words, b.len() as u64);
        return Err(Error::Format(words));
    }
    Ok(to_array::<GATE_ID_LEN>(b.as_slice()))
}

impl Endpoint {
    /// The first thing that is wrong with this endpoint and a client key, if
    /// anything is.
    pub open spec fn knocker_error(self, client_pkcs8: Seq<u8>) -> Option<ErrorView> {
        let d = self.descriptor;
        if crate::client::suite_parsed(d.suite@) is Err {
            Some(crate::client::suite_parsed(d.suite@)->Err_0)
        } else if hex_field(d.gate_pubkey_hex@) is Err {
            Some(hex_field(d.gate_pubkey_hex@)->Err_0)
        } else if gate_id_field(d.gate_id_hex@) is Err {
            Some(gate_id_field(d.gate_id_hex@)->Err_0)
        } else if crate::envelope::signing_public(
            crate::client::suite_parsed(d.suite@)->Ok_0,
            client_pkcs8,
        ) is None {
            Some(ErrorView::Crypto(CryptoError::Key))
        } else {
            None
        }
    }

    /// Build the [`Knocker`] for this endpoint's gate from the device's PKCS#8
    /// key, and the `host:port` that knocks go to.
    pub fn knocker(&self, client_pkcs8: &[u8]) -> (r: Result<(Knocker, String), Error>)
        ensures
            match r {
                Ok((knocker, target)) => {
                    &&& self.knocker_error(client_pkcs8@) is None
                    &&& knocker.made_of(
                        crate::client::suite_parsed(self.descriptor.suite@)->Ok_0,
                        hex_field(self.descriptor.gate_pubkey_hex@)->Ok_0,
                        gate_id_field(self.descriptor.gate_id_hex@)->Ok_0,
                        client_pkcs8@,
                    )
                    &&& target@ == knock_target(
                        self.descriptor.address@,
                        self.descriptor.knock_port,
                    )
                },
                Err(e) => self.knocker_error(client_pkcs8@) == Some(e@),
            },
    {
        let d = &self.descriptor;
        let suite = parse_suite(d.suite.as_str())?;
        let gate_pubkey = hex_text(d.gate_pubkey_hex.as_str())?;
        let gate_id = gate_id_arr(d.gate_id_hex.as_str())?;
        let knocker = Knocker::new(suite, gate_pubkey, gate_id, client_pkcs8)?;
        let address = to_chars(d.address.as_str());
        let mut target = String::new();
        if find(address.as_slice(), ':') < address.len() {
            target.append("[");
            target.append(d.address.as_str());
            target.append("]:");
        } else {
            target.append(d.address.as_str());
            target.append(":");
        }
        push_decimal(&mut target, d.knock_port as u64);
        assert(target@ =~= knock_target(d.address@, d.knock_port));
        Ok((knocker, target))
    }
}

/// What the device signs to authenticate a catalog request: method, path and
/// timestamp, joined by line feeds.
pub open spec fn signing_text(timestamp: u64) -> Seq<char> {
    "GET\n/api/client/catalog\n"@ + crate::text::decimal(timestamp as nat)
}

/// The text that the device signs.
pub fn signing_message(timestamp: u64) -> (r: String)
    ensures
        r@ == signing_text(timestamp),
{
    let mut out = String::from_str("GET\n/api/client/catalog\n");
    push_decimal(&mut out, timestamp);
    out
}

/// Text without slashes at its end.
pub open spec fn trim_slashes(s: Seq<char>) -> Seq<char>
    decreases s.len(),
{
    if s.len() > 0 && s.last() == '/' {
        trim_slashes(s.drop_last())
    } else {
        s
    }
}

/// Join a base address and a path.
pub fn join_url(base: &str, path: &str) -> (r: String)
    ensures
        r@ == trim_slashes(base@) + path@,
{
    let chars = to_chars(base);
    let mut end: usize = chars.len();
    assert(chars@.take(end as int) =~= chars@);
    while end > 0 && chars[end - 1] == '/'
        invariant
            end <= chars@.len(),
            trim_slashes(chars@.take(end as int)) == trim_slashes(chars@),
        decreases end,
    {
        assert(chars@.take(end as int).drop_last() =~= chars@.take(end - 1));
        end -= 1;
    }
    let mut out = String::new();
    push_chars(&mut out, vstd::slice::slice_subrange(chars.as_slice(), 0, end));
    assert(out@ =~= chars@.take(end as int));
    out.append(path);
    out
}

/// An authenticated catalog request.
pub struct CatalogRequest {
    pub url: String,
    /// The `x-spa-thumbprint` header.
    pub thumbprint: String,
    /// The `x-spa-timestamp` header.
    pub timestamp: String,
    /// The `x-spa-signature` header.
    pub signature: String,
}

/// Sign a catalog request at `timestamp`, in Unix seconds.
pub fn catalog_request(control_url: &str, key: &ClientKey, timestamp: u64) -> (r: Result<
    CatalogRequest,
    CryptoError,
>)
    ensures
        key.key_suite() == Suite::Modern ==> match crate::primitives::ed25519_signature(
            key.key_pkcs8(),
            vstd::utf8::encode_utf8(signing_text(timestamp)),
        ) {
            Some(sig) => r is Ok && r->Ok_0.signature@ == hexcode::hexed(sig),
            None => r is Err,
        },
        match r {
            Ok(request) => {
                &&& request.url@ == trim_slashes(control_url@) + "/api/client/catalog"@
                &&& request.thumbprint@ == hexcode::hexed(key.key_thumbprint())
                &&& request.timestamp@ == crate::text::decimal(timestamp as nat)
                &&& exists|signature: Seq<u8>|
                    request.signature@ == #[trigger] hexcode::hexed(signature)
                        && crate::envelope::signature_holds(
                        key.key_suite(),
                        key.key_public(),
                        vstd::utf8::encode_utf8(signing_text(timestamp)),
                        signature,
                    )
            },
            Err(e) => e == CryptoError::Sign && crate::envelope::signing_failed(
                key.key_suite(),
                key.key_pkcs8(),
                vstd::utf8::encode_utf8(signing_text(timestamp)),
            ),
        },
{
    let message = signing_message(timestamp);
    let sig = key.sign_detached(message.as_str().as_bytes())?;
    let signature = hexcode::encode(sig.as_slice());
    let mut time = String::new();
    push_decimal(&mut time, timestamp);
    assert(time@ =~= crate::text::decimal(timestamp as nat));
    assert(signature@ == hexcode::hexed(sig@));
    Ok(
        CatalogRequest {
            url: join_url(control_url, "/api/client/catalog"),
            thumbprint: hexcode::encode(key.thumbprint().as_slice()),
            timestamp: time,
            signature,
        },
    )
}

/// One endpoint, as it is listed.
pub open spec fn endpoint_line(e: Endpoint) -> Seq<char> {
    "      "@ + e.protocol@ + "/"@ + crate::text::decimal(e.port as nat) + "  via gate "@
        + e.descriptor.address@ + " (knock "@ + crate::text::decimal(
        e.descriptor.knock_port as nat,
    ) + ")\n"@
}

pub open spec fn endpoint_lines(endpoints: Seq<Endpoint>) -> Seq<char>
    decreases endpoints.len(),
{
    if endpoints.len() == 0 {
        Seq::empty()
    } else {
        endpoint_lines(endpoints.drop_last()) + endpoint_line(endpoints.last())
    }
}

/// One service and its endpoints, as they are listed.
pub open spec fn service_lines(s: Service) -> Seq<char> {
    "  "@ + s.name@ + "  ->  "@ + s.mesh_ip@ + "\n"@ + endpoint_lines(s.endpoints@)
}

pub open spec fn services_lines(services: Seq<Service>) -> Seq<char>
    decreases services.len(),
{
    if services.len() == 0 {
        Seq::empty()
    } else {
        services_lines(services.drop_last()) + service_lines(services.last())
    }
}

/// The catalog, as it is listed.
pub open spec fn listing_text(c: Catalog) -> Seq<char> {
    "device "@ + c.device.name@ + " ("@ + c.device.thumbprint@ + ")  mesh "@ + c.mesh_cidr@ + "\n"@
        + (if c.services@.len() == 0 {
        "  (no reachable services — check policy)\n"@
    } else {
        services_lines(c.services@)
    })
}

fn push_service(out: &mut String, s: &Service)
    ensures
        final(out)@ == old(out)@ + service_lines(*s),
{
    out.append("  ");
    out.append(s.name.as_str());
    out.append("  ->  ");
    out.append(s.mesh_ip.as_str());
    out.append("\n");
    let ghost head = out@;
    let mut i: usize = 0;
    assert(out@ =~= head + endpoint_lines(s.endpoints@.take(0)));
    while i < s.endpoints.len()
        invariant
            i <= s.endpoints@.len(),
            out@ == head + endpoint_lines(s.endpoints@.take(i as int)),
        decreases s.endpoints@.len() - i,
    {
        let e = &s.endpoints[i];
        out.append("      ");
        out.append(e.protocol.as_str());
        out.append("/");
        push_decimal(out, e.port as u64);
        out.append("  via gate ");
        out.append(e.descriptor.address.as_str());
        out.append(" (knock ");
        push_decimal(out, e.descriptor.knock_port as u64);
        out.append(")\n");
        proof {
            assert(s.endpoints@.take(i + 1).drop_last() =~= s.endpoints@.take(i as int));
            assert(out@ =~= head + endpoint_lines(s.endpoints@.take(i + 1)));
        }
        i += 1;
    }
    assert(s.endpoints@.take(i as int) =~= s.endpoints@);
    assert(out@ =~= old(out)@ + service_lines(*s));
}

impl Catalog {
    /// List the services that the device may reach.
    pub fn listing(&self) -> (out: String)
        ensures
            out@ == listing_text(*self),
    {
        let mut out = String::from_str("device ");
        out.append(self.device.name.as_str());
        out.append(" (");
        out.append(self.device.thumbprint.as_str());
        out.append(")  mesh ");
        out.append(self.mesh_cidr.as_str());
        out.append("\n");
        let ghost head = out@;
        if self.services.len() == 0 {
            out.append("  (no reachable services — check policy)\n");
        } else {
            let mut i: usize = 0;
            assert(out@ =~= head + services_lines(self.services@.take(0)));
            while i < self.services.len()
                invariant
                    i <= self.services@.len(),
                    out@ == head + services_lines(self.services@.take(i as int)),
                decreases self.services@.len() - i,
            {
                push_service(&mut out, &self.services[i]);
                proof {
                    assert(self.services@.take(i + 1).drop_last() =~= self.services@.take(
                        i as int,
                    ));
                    assert(out@ =~= head + services_lines(self.services@.take(i + 1)));
                }
                i += 1;
            }
            assert(self.services@.take(i as int) =~= self.services@);
        }
        out
    }
}

} // verus!
