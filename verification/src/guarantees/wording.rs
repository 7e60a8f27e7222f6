//! The words in which errors are told.

use vstd::prelude::*;
use vstd::string::*;

use crate::bundle::BundleError;
use crate::client::{bind_address, Error};
use crate::config::{ConfigError, Field};
use crate::control::ControlError;
use crate::envelope::CryptoError;
use crate::hexcode::HexError;
use crate::mesh::dial_error;
use crate::provision::ProvisionError;

verus! {

/// What is wrong with hexadecimal text.
pub open spec fn hex_words(e: HexError) -> Seq<char> {
    match e {
        HexError::InvalidCharacter { c, index } => "Invalid character "@
            + crate::text::quoted_char(c) + " at position "@ + crate::text::decimal(index as nat),
        HexError::OddLength => "Odd number of digits"@,
        HexError::InvalidLength => "Invalid string length"@,
    }
}

/// Text that is no hexadecimal is told with the character and its place.
pub proof fn law_hex_message(e: &HexError, r: String)
    requires
        call_ensures(HexError::message, (e,), r),
    ensures
        r@ == hex_words(*e),
{
}

/// What went wrong with a knock.
pub open spec fn error_words(e: Error) -> Seq<char> {
    match e {
        Error::Crypto(CryptoError::Key) => "crypto: "@ + "Key"@,
        Error::Crypto(CryptoError::Sign) => "crypto: "@ + "Sign"@,
        Error::Crypto(CryptoError::Encode) => "crypto: "@ + "Encode"@,
        Error::Crypto(CryptoError::Crypto) => "crypto: "@ + "Crypto"@,
        Error::Io(words) => "io: "@ + words@,
        Error::Format(words) => words@,
        Error::Unreachable(words) => "unreachable after knocking: "@ + words@,
    }
}

/// What went wrong with a knock is told with the words that came with it; and with
/// a flow, likewise.
pub proof fn law_error_message(e: &Error, r: String, dialled: String)
    requires
        call_ensures(Error::message, (e,), r),
        call_ensures(dial_error, (e,), dialled),
    ensures
        r@ == error_words(*e),
        dialled@ == match *e {
            Error::Unreachable(words) => "backend unreachable after knocking: "@ + words@,
            _ => error_words(*e),
        },
{
}

/// What is wrong with a bundle.
pub proof fn law_bundle_message(e: &BundleError, r: String)
    requires
        call_ensures(BundleError::message, (e,), r),
    ensures
        r@ == match *e {
            BundleError::TooShort => "bundle shorter than its signature"@,
            BundleError::BadSignature => "bundle signature invalid"@,
            BundleError::NotText(words) => words@,
        },
{
}

/// The name of a field.
pub open spec fn field_name(field: Field) -> Seq<char> {
    match field {
        Field::ConfigAnchor => "config_anchor_hex"@,
        Field::GatePrivate => "gate_private_hex"@,
        Field::GateId => "gate_id_hex"@,
        Field::Thumbprint => "thumbprint_hex"@,
        Field::PublicKey => "public_key_hex"@,
        Field::TokenId => "token_id_hex"@,
        Field::Secret => "secret_hex"@,
    }
}

/// What is wrong with a configuration is told with the field.
pub proof fn law_config_message(field: &Field, name: &str, e: &ConfigError, r: String)
    requires
        call_ensures(Field::as_str, (field,), name),
        call_ensures(ConfigError::message, (e,), r),
    ensures
        name@ == field_name(*field),
        r@ == match *e {
            ConfigError::UnknownSuite(name) => "unknown suite "@ + crate::text::quoted(name@),
            ConfigError::BadHex(field, why) => field_name(field) + ": "@ + hex_words(why),
            ConfigError::WrongLength { field, expected, got } => field_name(field)
                + ": expected "@ + crate::text::decimal(expected as nat) + " bytes, got "@
                + crate::text::decimal(got as nat),
        },
{
}

/// What is wrong with what the control plane told.
pub proof fn law_control_message(e: &ControlError, r: String)
    requires
        call_ensures(ControlError::message, (e,), r),
    ensures
        r@ == match *e {
            ControlError::GateIdHex(why) => "control-plane gate_id: "@ + hex_words(why),
            ControlError::GateIdLength(got) => "control-plane gate_id: expected "@
                + crate::text::decimal(16) + " bytes, got "@ + crate::text::decimal(got as nat),
            ControlError::AnchorHex(why) => "control-plane config_anchor: "@ + hex_words(why),
            ControlError::NoGateId => "no gate_id: set gate_id_hex, or configure [control_plane]"@,
        },
{
}

/// What is wrong with the arguments of a gate that is to be provisioned.
pub proof fn law_provision_message(e: &ProvisionError, r: String)
    requires
        call_ensures(ProvisionError::message, (e,), r),
    ensures
        r@ == match *e {
            ProvisionError::Usage =>
                "usage: provision <interface> <bpf_object> <control-plane-url> <gate-token> <gate-address> [ca_cert]"@,
            ProvisionError::UnknownSuite(name) => "unknown suite "@ + crate::text::quoted(name@)
                + " (fips|modern)"@,
        },
{
}

/// A socket is bound to any address of the target's family.
pub proof fn law_bind_address(ipv6: bool, r: &str)
    requires
        call_ensures(bind_address, (ipv6,), r),
    ensures
        ipv6 ==> r@ == "[::]:0"@,
        !ipv6 ==> r@ == "0.0.0.0:0"@,
{
}

} // verus!
