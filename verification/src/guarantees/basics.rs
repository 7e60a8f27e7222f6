//! Bytes, copies and readings of a clock.

use vstd::prelude::*;

use crate::adapters::{clock_reading, to_timestamp};
use crate::bytes::{append, append_be, read_be, same, to_array, to_vec};
use crate::config::{ClientEntry, TokenEntry};
use crate::gatekeeper::Decision;
use crate::wire::Authorization;

verus! {

proof fn lemma_be_value(bytes: Seq<u8>)
    ensures
        crate::bytes::be_value(bytes) == bytes.fold_left(0int, |n: int, b: u8| 256 * n + b),
    decreases bytes.len(),
{
    if bytes.len() > 0 {
        lemma_be_value(bytes.drop_last());
    }
}

/// Bytes are read as a number, the most significant first.
pub proof fn law_read_be(bytes: &[u8], value: u64)
    requires
        bytes@.len() <= 8,
        call_ensures(read_be, (bytes,), value),
    ensures
        value == bytes@.fold_left(0int, |n: int, b: u8| 256 * n + b),
{
    lemma_be_value(bytes@);
}

proof fn lemma_be_bytes(value: nat, width: nat, i: nat)
    requires
        i < width,
    ensures
        crate::bytes::be_bytes(value, width).len() == width,
        crate::bytes::be_bytes(value, width)[width - 1 - i] == (value as int / vstd::arithmetic::power::pow(256, i)) % 256,
    decreases width,
{
    crate::bytes::lemma_be_bytes_len(value, width);
    reveal(vstd::arithmetic::power::pow);
    if i > 0 {
        let j = (i - 1) as nat;
        crate::bytes::lemma_be_bytes_len(value / 256, (width - 1) as nat);
        lemma_be_bytes(value / 256, (width - 1) as nat, j);
        vstd::arithmetic::power::lemma_pow_positive(256, j);
        vstd::arithmetic::div_mod::lemma_div_denominator(value as int, 256, vstd::arithmetic::power::pow(256, j));
        assert(vstd::arithmetic::power::pow(256, i) == 256 * vstd::arithmetic::power::pow(256, j));
    }
}

/// A number is put behind what is there as its low-order bytes, the most significant
/// first.
pub proof fn law_append_be(out: &mut Vec<u8>, value: u64, width: usize)
    requires
        call_ensures(append_be, (out, value, width), ()),
    ensures
        final(out)@.len() == old(out)@.len() + width,
        final(out)@.take(old(out)@.len() as int) == old(out)@,
        forall|i: nat|
            i < width ==> #[trigger] final(out)@[final(out)@.len() - 1 - i] == (value as int / vstd::arithmetic::power::pow(
                256,
                i,
            )) % 256,
{
    let all = crate::bytes::be_bytes(value as nat, width as nat);
    crate::bytes::lemma_be_bytes_len(value as nat, width as nat);
    assert(final(out)@.take(old(out)@.len() as int) =~= old(out)@);
    assert forall|i: nat| i < width implies #[trigger] final(out)@[final(out)@.len() - 1 - i] == (
    value as int / vstd::arithmetic::power::pow(256, i)) % 256 by {
        lemma_be_bytes(value as nat, width as nat, i);
        assert(final(out)@[final(out)@.len() - 1 - i] == all[width - 1 - i]);
    }
}

/// Bytes are put behind what is there.
pub proof fn law_append(out: &mut Vec<u8>, tail: &[u8])
    requires
        call_ensures(append, (out, tail), ()),
    ensures
        final(out)@ == old(out)@ + tail@,
{
}

/// Bytes are copied as they are, and are the same if each of them is.
pub proof fn law_bytes<const N: usize>(
    bytes: &[u8],
    out: Vec<u8>,
    source: &[u8],
    array: [u8; N],
    a: &[u8],
    b: &[u8],
    r: bool,
)
    requires
        call_ensures(to_vec, (bytes,), out),
        source@.len() == N,
        call_ensures(to_array::<N>, (source,), array),
        call_ensures(same, (a, b), r),
    ensures
        out@ == bytes@,
        array@ == source@,
        r == (a@.len() == b@.len() && forall|i: int| 0 <= i < a@.len() ==> a@[i] == b@[i]),
{
    if a@.len() == b@.len() && forall|i: int| 0 <= i < a@.len() ==> a@[i] == b@[i] {
        assert(a@ =~= b@);
    }
}

/// A copy says what was copied.
pub proof fn law_copies(
    auth: &Authorization,
    auth_copy: Authorization,
    client: &ClientEntry,
    client_copy: ClientEntry,
    token: &TokenEntry,
    token_copy: TokenEntry,
    decision: &Decision,
    decision_copy: Decision,
)
    requires
        call_ensures(<Authorization as Clone>::clone, (auth,), auth_copy),
        call_ensures(<ClientEntry as Clone>::clone, (client,), client_copy),
        call_ensures(<TokenEntry as Clone>::clone, (token,), token_copy),
        call_ensures(<Decision as Clone>::clone, (decision,), decision_copy),
    ensures
        auth_copy.nonce@ == auth.nonce@,
        auth_copy.timestamp_nanos == auth.timestamp_nanos,
        auth_copy.gate_id@ == auth.gate_id@,
        auth_copy.key_thumbprint@ == auth.key_thumbprint@,
        auth_copy.ports@ == auth.ports@,
        auth_copy.signature@ == auth.signature@,
        client_copy.thumbprint@ == client.thumbprint@,
        client_copy.public_key@ == client.public_key@,
        client_copy.ports@ == client.ports@,
        token_copy.token_id@ == token.token_id@,
        token_copy.secret@ == token.secret@,
        token_copy.ports@ == token.ports@,
        match (*decision, decision_copy) {
            (Decision::Opened { ports: a }, Decision::Opened { ports: b }) => a@ == b@,
            (Decision::Rejected(a), Decision::Rejected(b)) => a == b,
            _ => false,
        },
{
}

/// A reading of the clock is kept as its low-order 64 bits; a clock that is set
/// before the epoch tells zero.
pub proof fn law_timestamps(nanos: u128, r: u64, told: Option<u128>, now: u64)
    requires
        call_ensures(to_timestamp, (nanos,), r),
        call_ensures(clock_reading, (told,), now),
    ensures
        r == nanos % 0x1_0000_0000_0000_0000,
        told is Some ==> now == told->0 % 0x1_0000_0000_0000_0000,
        told is None ==> now == 0,
{
}

} // verus!
