//! The bytes of an authorization.

use vstd::prelude::*;

use crate::wire::{Authorization, AuthorizationView, Suite, WireError};

verus! {

/// The number that eight bytes spell, most significant first.
pub open spec fn eight(b: Seq<u8>, at: int) -> int {
    b[at] * 0x100_0000_0000_0000 + b[at + 1] * 0x1_0000_0000_0000 + b[at + 2] * 0x100_0000_0000
        + b[at + 3] * 0x1_0000_0000 + b[at + 4] * 0x100_0000 + b[at + 5] * 0x1_0000 + b[at + 6]
        * 0x100 + b[at + 7]
}

/// `b` spells an authorization: a version, the nonce, the time, whom it is for, who
/// sends it, how many ports and which, and the signature, each at its place.
pub open spec fn spells(b: Seq<u8>, auth: Authorization) -> bool {
    let n = auth.ports@.len() as int;
    &&& b.len() == 138 + 2 * n
    &&& 1 <= n <= 8
    &&& b[0] == 1
    &&& forall|i: int| 0 <= i < 16 ==> #[trigger] auth.nonce@[i] == b[1 + i]
    &&& auth.timestamp_nanos == eight(b, 17)
    &&& forall|i: int| 0 <= i < 16 ==> #[trigger] auth.gate_id@[i] == b[25 + i]
    &&& forall|i: int| 0 <= i < 32 ==> #[trigger] auth.key_thumbprint@[i] == b[41 + i]
    &&& b[73] == n
    &&& forall|i: int|
        0 <= i < n ==> #[trigger] auth.ports@[i] == b[74 + 2 * i] * 256 + b[75 + 2 * i]
    &&& forall|i: int| 0 <= i < 64 ==> #[trigger] auth.signature@[i] == b[74 + 2 * n + i]
}

proof fn lemma_be_value_2(b: Seq<u8>)
    requires
        b.len() == 2,
    ensures
        crate::bytes::be_value(b) == b[0] * 256 + b[1],
{
    reveal_with_fuel(crate::bytes::be_value, 3);
    assert(b.drop_last().len() == 1);
    assert(b.drop_last().drop_last().len() == 0);
}

proof fn lemma_be_value_8(b: Seq<u8>)
    requires
        b.len() == 8,
    ensures
        crate::bytes::be_value(b) == eight(b, 0),
{
    reveal_with_fuel(crate::bytes::be_value, 9);
    let s7 = b.drop_last();
    let s6 = s7.drop_last();
    let s5 = s6.drop_last();
    let s4 = s5.drop_last();
    let s3 = s4.drop_last();
    let s2 = s3.drop_last();
    let s1 = s2.drop_last();
    assert(s1.drop_last().len() == 0);
    assert(crate::bytes::be_value(s1) == b[0]);
    assert(crate::bytes::be_value(s2) == b[0] * 0x100 + b[1]);
    assert(crate::bytes::be_value(s3) == b[0] * 0x1_0000 + b[1] * 0x100 + b[2]);
    assert(crate::bytes::be_value(s4) == b[0] * 0x100_0000 + b[1] * 0x1_0000 + b[2] * 0x100
        + b[3]);
}

/// What decodes is what it spells.
pub(crate) proof fn lemma_decoded_spells(b: Seq<u8>, auth: Authorization)
    requires
        crate::wire::decoded(b) == Ok::<AuthorizationView, WireError>(auth@),
    ensures
        spells(b, auth),
{
    let n = auth.ports@.len() as int;
    let count = b[73] as int;
    let end = 74 + 2 * count;
    let area = b.subrange(74, end);
    lemma_be_value_8(b.subrange(17, 25));
    crate::bytes::lemma_be_bytes_of_be_value(b.subrange(17, 25));
    crate::bytes::lemma_be_limits();
    assert(auth@.ports == crate::wire::ports_of(area, count as nat));
    assert forall|i: int| 0 <= i < n implies #[trigger] auth.ports@[i] == b[74 + 2 * i] * 256
        + b[75 + 2 * i] by {
        let two = area.subrange(2 * i, 2 * i + 2);
        lemma_be_value_2(two);
        assert(auth@.ports[i] == crate::bytes::be_value(two) as u16);
        assert(two[0] == b[74 + 2 * i]);
        assert(two[1] == b[75 + 2 * i]);
    }
    assert forall|i: int| 0 <= i < 16 implies #[trigger] auth.nonce@[i] == b[1 + i] by {
        assert(b.subrange(1, 17)[i] == b[1 + i]);
    }
    assert forall|i: int| 0 <= i < 16 implies #[trigger] auth.gate_id@[i] == b[25 + i] by {
        assert(b.subrange(25, 41)[i] == b[25 + i]);
    }
    assert forall|i: int| 0 <= i < 32 implies #[trigger] auth.key_thumbprint@[i] == b[41 + i] by {
        assert(b.subrange(41, 73)[i] == b[41 + i]);
    }
    assert forall|i: int| 0 <= i < 64 implies #[trigger] auth.signature@[i] == b[74 + 2 * n
        + i] by {
        assert(b.subrange(end, b.len() as int)[i] == b[end + i]);
    }
}

/// Decoding accepts exactly what spells an authorization, as that authorization, and
/// names what is wrong with anything else: the first of version, length and number
/// of ports that is.
pub proof fn law_decode(buf: &[u8], r: Result<Authorization, WireError>)
    requires
        call_ensures(Authorization::decode, (buf,), r),
    ensures
        match r {
            Ok(auth) => spells(buf@, auth),
            Err(WireError::TooShort) => buf@.len() == 0 || buf@[0] == 1 && (buf@.len() < 74 || 1
                <= buf@[73] <= 8 && buf@.len() < 138 + 2 * buf@[73]),
            Err(WireError::BadVersion(v)) => buf@.len() > 0 && v == buf@[0] && v != 1,
            Err(WireError::BadSuite(_)) => false,
            Err(WireError::BadPortCount(n)) => buf@.len() >= 74 && buf@[0] == 1 && n == buf@[73] && !(
            1 <= n <= 8),
            Err(WireError::TrailingBytes) => buf@.len() > 138 && buf@[0] == 1 && 1 <= buf@[73] <= 8
                && buf@.len() > 138 + 2 * buf@[73],
        },
{
    if let Ok(auth) = r {
        lemma_decoded_spells(buf@, auth);
    }
}

/// Encoding spells the authorization, and is refused exactly where it asks for no
/// ports or for more than eight.
pub proof fn law_encode(auth: &Authorization, r: Result<Vec<u8>, WireError>)
    requires
        call_ensures(Authorization::encode, (auth,), r),
    ensures
        match r {
            Ok(out) => spells(out@, *auth),
            Err(e) => !(1 <= auth.ports@.len() <= 8) && e == WireError::BadPortCount(
                auth.ports@.len() as usize,
            ),
        },
{
    if let Ok(out) = r {
        crate::wire::law_decode_inverts_encode(auth@);
        lemma_decoded_spells(out@, *auth);
    }
}

/// What is signed is the encoding without the signature at its end.
pub proof fn law_signing_bytes(
    auth: &Authorization,
    r: Result<Vec<u8>, WireError>,
    whole: Result<Vec<u8>, WireError>,
)
    requires
        call_ensures(Authorization::signing_bytes, (auth,), r),
        call_ensures(Authorization::encode, (auth,), whole),
    ensures
        r is Ok == whole is Ok,
        r is Ok ==> r->Ok_0@.len() == 74 + 2 * auth.ports@.len() && r->Ok_0@ == whole->Ok_0@.take(
            whole->Ok_0@.len() - 64,
        ),
        r is Err ==> r->Err_0 == WireError::BadPortCount(auth.ports@.len() as usize),
{
    if r is Ok {
        law_encode(auth, whole);
        assert(whole->Ok_0@.take(whole->Ok_0@.len() - 64) =~= r->Ok_0@);
    }
}

/// The byte that names a suite.
pub proof fn law_suite_bytes(suite: Suite, b: u8, byte: u8, r: Result<Suite, WireError>)
    requires
        call_ensures(Suite::to_byte, (suite,), b),
        call_ensures(Suite::from_byte, (byte,), r),
    ensures
        suite == Suite::Fips ==> b == 1,
        suite == Suite::Modern ==> b == 2,
        byte == 1 ==> r == Ok::<Suite, WireError>(Suite::Fips),
        byte == 2 ==> r == Ok::<Suite, WireError>(Suite::Modern),
        byte != 1 && byte != 2 ==> r == Err::<Suite, WireError>(WireError::BadSuite(byte)),
{
    assert(Suite::Fips.byte() == 1);
    assert(Suite::Modern.byte() == 2);
}

} // verus!
