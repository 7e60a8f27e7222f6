//! The knock wire format: the byte layout of the authorization that travels
//! inside every knock, with bounds-checked encoding and decoding. No
//! cryptography happens here.
//!
//! Layout of the plaintext:
//! ```text
//! version(1) | nonce(16) | timestamp(8, BE ns) | gate_id(16)
//!   | key_thumbprint(32) | port_count(1) | ports(2*count, BE) | signature(64)
//! ```
//! The signature covers every preceding byte, the *signing region*.

use vstd::prelude::*;

use crate::bytes::{append, append_be, read_be, to_array};

verus! {

/// Wire-format version. Bumped on any breaking layout change.
pub const VERSION: u8 = 1;

pub const NONCE_LEN: usize = 16;

pub const GATE_ID_LEN: usize = 16;

/// Length of a key thumbprint: the raw SHA-256 of the public-key bytes
/// (Ed25519: the 32-byte key; ECDSA P-256: the 65-byte uncompressed point).
pub const THUMBPRINT_LEN: usize = 32;

/// Raw signature over the signing region (r then s for ECDSA P-256, or Ed25519).
pub const SIG_LEN: usize = 64;

/// Upper bound on the ports a single knock may request. A valid knock requests
/// between one and this many.
pub const MAX_PORTS: usize = 8;

/// Bytes in front of the port list: version, nonce, timestamp, gate id,
/// thumbprint and port count.
pub const FIXED_LEN: usize = 74;

/// Cipher suite selector, carried in the outer envelope so that a gate knows
/// how to decrypt before decrypting.
#[derive(Debug, Clone, Copy, PartialEq, Eq, Structural)]
pub enum Suite {
    /// ECDH P-256, AES-256-GCM, ECDSA P-256. The default.
    Fips,
    /// X25519, ChaCha20-Poly1305, Ed25519.
    Modern,
}

impl Suite {
    /// The suite's selector byte.
    pub open spec fn byte(self) -> u8 {
        match self {
            Suite::Fips => 0x01,
            Suite::Modern => 0x02,
        }
    }

    pub fn to_byte(self) -> (b: u8)
        ensures
            b == self.byte(),
    {
        match self {
            Suite::Fips => 0x01,
            Suite::Modern => 0x02,
        }
    }

    pub fn from_byte(b: u8) -> (r: Result<Suite, WireError>)
        ensures
            match r {
                Ok(suite) => suite.byte() == b,
                Err(e) => e == WireError::BadSuite(b) && (forall|s: Suite| s.byte() != b),
            },
    {
        match b {
            0x01 => Ok(Suite::Fips),
            0x02 => Ok(Suite::Modern),
            _ => Err(WireError::BadSuite(b)),
        }
    }
}

/// Errors from decoding untrusted input. No variant carries more of that input
/// than the offending byte.
#[derive(Debug, Clone, Copy, PartialEq, Eq, Structural)]
pub enum WireError {
    /// Buffer ended before a field could be read.
    TooShort,
    /// Unknown wire-format version.
    BadVersion(u8),
    /// Unknown cipher-suite byte.
    BadSuite(u8),
    /// Port count was 0 or exceeded `MAX_PORTS`.
    BadPortCount(usize),
    /// Bytes remained after a complete authorization was parsed.
    TrailingBytes,
}

/// The authorization carried inside the encrypted knock.
#[derive(Debug, PartialEq, Eq)]
pub struct Authorization {
    /// Per-packet random nonce; a gate keeps a seen-set against replay.
    pub nonce: [u8; NONCE_LEN],
    /// Client clock at send time, nanoseconds since the Unix epoch.
    pub timestamp_nanos: u64,
    /// Which gate this knock is for, so that a capture cannot be relayed to
    /// another gate.
    pub gate_id: [u8; GATE_ID_LEN],
    /// Thumbprint of the client's key, by which a gate authorizes.
    pub key_thumbprint: [u8; THUMBPRINT_LEN],
    /// Ports the client asks to have opened.
    pub ports: Vec<u16>,
    /// Signature over the signing region (everything above).
    pub signature: [u8; SIG_LEN],
}

/// What an [`Authorization`] says, field by field.
#[verifier::ext_equal]
pub struct AuthorizationView {
    pub nonce: Seq<u8>,
    pub timestamp_nanos: u64,
    pub gate_id: Seq<u8>,
    pub key_thumbprint: Seq<u8>,
    pub ports: Seq<u16>,
    pub signature: Seq<u8>,
}

impl View for Authorization {
    type V = AuthorizationView;

    open spec fn view(&self) -> AuthorizationView {
        AuthorizationView {
            nonce: self.nonce@,
            timestamp_nanos: self.timestamp_nanos,
            gate_id: self.gate_id@,
            key_thumbprint: self.key_thumbprint@,
            ports: self.ports@,
            signature: self.signature@,
        }
    }
}

/// Ports as two big-endian bytes each, in order.
pub open spec fn ports_bytes(ports: Seq<u16>) -> Seq<u8>
    decreases ports.len(),
{
    if ports.len() == 0 {
        Seq::empty()
    } else {
        ports_bytes(ports.drop_last()) + crate::bytes::be_bytes(ports.last() as nat, 2)
    }
}

/// The `count` ports that `bytes` spells, two big-endian bytes each.
pub open spec fn ports_of(bytes: Seq<u8>, count: nat) -> Seq<u16> {
    Seq::new(
        count,
        |i: int| crate::bytes::be_value(bytes.subrange(2 * i, 2 * i + 2)) as u16,
    )
}

impl AuthorizationView {
    /// The fixed-width fields have their widths.
    pub open spec fn sized(self) -> bool {
        &&& self.nonce.len() == NONCE_LEN
        &&& self.gate_id.len() == GATE_ID_LEN
        &&& self.key_thumbprint.len() == THUMBPRINT_LEN
        &&& self.signature.len() == SIG_LEN
    }

    /// A knock requests between one and `MAX_PORTS` ports.
    pub open spec fn encodable(self) -> bool {
        1 <= self.ports.len() <= MAX_PORTS
    }

    /// The bytes that a signer signs and a verifier checks.
    pub open spec fn signing_region(self) -> Seq<u8> {
        seq![VERSION] + self.nonce + crate::bytes::be_bytes(self.timestamp_nanos as nat, 8)
            + self.gate_id + self.key_thumbprint + seq![self.ports.len() as u8] + ports_bytes(
            self.ports,
        )
    }

    /// The full plaintext.
    pub open spec fn encoding(self) -> Seq<u8> {
        self.signing_region() + self.signature
    }
}

/// What decoding `buf` gives.
pub open spec fn decoded(buf: Seq<u8>) -> Result<AuthorizationView, WireError> {
    if buf.len() == 0 {
        Err(WireError::TooShort)
    } else if buf[0] != VERSION {
        Err(WireError::BadVersion(buf[0]))
    } else if buf.len() < FIXED_LEN {
        Err(WireError::TooShort)
    } else {
        let count = buf[73] as int;
        let end = FIXED_LEN + 2 * count;
        if count == 0 || count > MAX_PORTS {
            Err(WireError::BadPortCount(count as usize))
        } else if buf.len() < end + SIG_LEN {
            Err(WireError::TooShort)
        } else if buf.len() > end + SIG_LEN {
            Err(WireError::TrailingBytes)
        } else {
            Ok(
                AuthorizationView {
                    nonce: buf.subrange(1, 17),
                    timestamp_nanos: crate::bytes::be_value(buf.subrange(17, 25)) as u64,
                    gate_id: buf.subrange(25, 41),
                    key_thumbprint: buf.subrange(41, 73),
                    ports: ports_of(buf.subrange(74, end), count as nat),
                    signature: buf.subrange(end, buf.len() as int),
                },
            )
        }
    }
}

impl Clone for Authorization {
    fn clone(&self) -> (r: Self)
        ensures
            r@ == self@,
    {
        let r = Authorization {
            nonce: self.nonce,
            timestamp_nanos: self.timestamp_nanos,
            gate_id: self.gate_id,
            key_thumbprint: self.key_thumbprint,
            ports: self.ports.clone(),
            signature: self.signature,
        };
        assert(r@ =~= self@);
        r
    }
}

impl Authorization {
    /// The exact bytes a signer signs and a verifier checks: the full encoding
    /// minus the trailing signature.
    pub fn signing_bytes(&self) -> (r: Result<Vec<u8>, WireError>)
        ensures
            match r {
                Ok(out) => self@.encodable() && out@ == self@.signing_region(),
                Err(e) => !self@.encodable() && e == WireError::BadPortCount(self.ports@.len() as usize),
            },
    {
        let n: usize = self.ports.len();
        if n == 0 || n > MAX_PORTS {
            return Err(WireError::BadPortCount(n));
        }
        let mut out: Vec<u8> = Vec::with_capacity(FIXED_LEN + 2 * n);
        out.push(VERSION);
        append(&mut out, self.nonce.as_slice());
        append_be(&mut out, self.timestamp_nanos, 8);
        append(&mut out, self.gate_id.as_slice());
        append(&mut out, self.key_thumbprint.as_slice());
        out.push(n as u8);
        let ghost head = out@;
        proof {
            assert(head =~= seq![VERSION] + self@.nonce + crate::bytes::be_bytes(
                self@.timestamp_nanos as nat,
                8,
            ) + self@.gate_id + self@.key_thumbprint + seq![self@.ports.len() as u8]);
        }
        let mut i: usize = 0;
        while i < n
            invariant
                i <= n,
                n == self.ports@.len(),
                out@ == head + ports_bytes(self.ports@.take(i as int)),
            decreases n - i,
        {
            append_be(&mut out, self.ports[i] as u64, 2);
            proof {
                assert(self.ports@.take(i + 1).drop_last() =~= self.ports@.take(i as int));
                assert(out@ =~= head + ports_bytes(self.ports@.take(i + 1)));
            }
            i += 1;
        }
        assert(self.ports@.take(n as int) =~= self.ports@);
        Ok(out)
    }

    /// Full plaintext encoding (signing region followed by the signature).
    pub fn encode(&self) -> (r: Result<Vec<u8>, WireError>)
        ensures
            match r {
                Ok(out) => self@.encodable() && out@ == self@.encoding(),
                Err(e) => !self@.encodable() && e == WireError::BadPortCount(self.ports@.len() as usize),
            },
    {
        match self.signing_bytes() {
            Ok(region) => {
                let mut out: Vec<u8> = region;
                append(&mut out, self.signature.as_slice());
                Ok(out)
            },
            Err(e) => Err(e),
        }
    }

    /// Parse a decrypted plaintext into an `Authorization`, rejecting any
    /// malformed, truncated or over-long input.
    pub fn decode(buf: &[u8]) -> (r: Result<Authorization, WireError>)
        ensures
            match r {
                Ok(auth) => decoded(buf@) == Ok::<AuthorizationView, WireError>(auth@),
                Err(e) => decoded(buf@) == Err::<AuthorizationView, WireError>(e),
            },
    {
        let mut r = Reader::new(buf);

        let version: u8 = r.u8()?;
        if version != VERSION {
            return Err(WireError::BadVersion(version));
        }
        let nonce = r.array::<NONCE_LEN>()?;
        let timestamp_nanos: u64 = r.u64()?;
        let gate_id = r.array::<GATE_ID_LEN>()?;
        let key_thumbprint = r.array::<THUMBPRINT_LEN>()?;

        let count: usize = r.u8()? as usize;
        if count == 0 || count > MAX_PORTS {
            return Err(WireError::BadPortCount(count));
        }
        let mut ports: Vec<u16> = Vec::with_capacity(count);
        let ghost area = buf@.subrange(74, buf@.len() as int);
        let mut i: usize = 0;
        while i < count
            invariant
                i <= count <= MAX_PORTS,
                r.valid(),
                r.buf@ == buf@,
                r.pos == FIXED_LEN + 2 * i,
                area == buf@.subrange(74, buf@.len() as int),
                decoded(buf@) is Err && buf@.len() < FIXED_LEN + 2 * count + SIG_LEN ==> decoded(
                    buf@,
                ) == Err::<AuthorizationView, WireError>(WireError::TooShort),
                buf@.len() < FIXED_LEN + 2 * count + SIG_LEN ==> decoded(buf@) is Err,
                ports@ =~= ports_of(area, i as nat),
            decreases count - i,
        {
            let port: u16 = r.u16()?;
            ports.push(port);
            proof {
                assert(buf@.subrange(74 + 2 * i, 74 + 2 * i + 2) =~= area.subrange(
                    2 * i,
                    2 * i + 2,
                ));
            }
            i += 1;
        }

        let signature = r.array::<SIG_LEN>()?;
        if r.remaining() != 0 {
            return Err(WireError::TrailingBytes);
        }
        let auth = Authorization {
            nonce,
            timestamp_nanos,
            gate_id,
            key_thumbprint,
            ports,
            signature,
        };
        proof {
            let end = FIXED_LEN + 2 * count;
            let packed = buf@.subrange(74, end);
            assert forall|j: int| 0 <= j < count implies #[trigger] auth@.ports[j] == ports_of(
                packed,
                count as nat,
            )[j] by {
                assert(area.subrange(2 * j, 2 * j + 2) =~= packed.subrange(2 * j, 2 * j + 2));
            }
            assert(auth@.ports =~= ports_of(packed, count as nat));
        }
        Ok(auth)
    }
}

/// Minimal forward-only reader. Every read is bounds-checked, so a short or
/// hostile buffer can only ever produce `WireError::TooShort`.
struct Reader<'a> {
    buf: &'a [u8],
    pos: usize,
}

impl<'a> Reader<'a> {
    spec fn valid(self) -> bool {
        self.pos <= self.buf@.len()
    }

    /// The reader has moved over `n` bytes, or stands where it stood because
    /// fewer were left.
    spec fn advanced(self, before: Self, n: int, ok: bool) -> bool {
        &&& self.valid()
        &&& self.buf@ == before.buf@
        &&& ok == (before.pos + n <= before.buf@.len())
        &&& self.pos == if ok {
            before.pos + n
        } else {
            before.pos as int
        }
    }

    /// The `n` bytes in front of the reader.
    spec fn ahead(self, n: int) -> Seq<u8> {
        self.buf@.subrange(self.pos as int, self.pos + n)
    }

    fn new(buf: &'a [u8]) -> (r: Self)
        ensures
            r.valid(),
            r.buf@ == buf@,
            r.pos == 0,
    {
        Reader { buf, pos: 0 }
    }

    fn take(&mut self, n: usize) -> (r: Result<&'a [u8], WireError>)
        requires
            old(self).valid(),
        ensures
            final(self).advanced(*old(self), n as int, r is Ok),
            match r {
                Ok(slice) => slice@ == old(self).ahead(n as int),
                Err(e) => e == WireError::TooShort,
            },
    {
        if n > self.buf.len() - self.pos {
            return Err(WireError::TooShort);
        }
        let end: usize = self.pos + n;
        let slice = vstd::slice::slice_subrange(self.buf, self.pos, end);
        self.pos = end;
        Ok(slice)
    }

    fn u8(&mut self) -> (r: Result<u8, WireError>)
        requires
            old(self).valid(),
        ensures
            final(self).advanced(*old(self), 1, r is Ok),
            match r {
                Ok(b) => b == old(self).buf@[old(self).pos as int],
                Err(e) => e == WireError::TooShort,
            },
    {
        let b = self.take(1)?;
        Ok(b[0])
    }

    fn u16(&mut self) -> (r: Result<u16, WireError>)
        requires
            old(self).valid(),
        ensures
            final(self).advanced(*old(self), 2, r is Ok),
            match r {
                Ok(v) => v == crate::bytes::be_value(old(self).ahead(2)) as u16,
                Err(e) => e == WireError::TooShort,
            },
    {
        let b = self.take(2)?;
        proof {
            crate::bytes::lemma_be_bytes_of_be_value(b@);
            crate::bytes::lemma_be_limits();
        }
        Ok(read_be(b) as u16)
    }

    fn u64(&mut self) -> (r: Result<u64, WireError>)
        requires
            old(self).valid(),
        ensures
            final(self).advanced(*old(self), 8, r is Ok),
            match r {
                Ok(v) => v == crate::bytes::be_value(old(self).ahead(8)) as u64,
                Err(e) => e == WireError::TooShort,
            },
    {
        let b = self.take(8)?;
        Ok(read_be(b))
    }

    fn array<const N: usize>(&mut self) -> (r: Result<[u8; N], WireError>)
        requires
            old(self).valid(),
        ensures
            final(self).advanced(*old(self), N as int, r is Ok),
            match r {
                Ok(a) => a@ == old(self).ahead(N as int),
                Err(e) => e == WireError::TooShort,
            },
    {
        let b = self.take(N)?;
        Ok(to_array::<N>(b))
    }

    fn remaining(&self) -> (n: usize)
        requires
            self.valid(),
        ensures
            n == self.buf@.len() - self.pos,
    {
        self.buf.len() - self.pos
    }
}

proof fn lemma_ports_bytes_len(ports: Seq<u16>)
    ensures
        ports_bytes(ports).len() == 2 * ports.len(),
    decreases ports.len(),
{
    if ports.len() > 0 {
        lemma_ports_bytes_len(ports.drop_last());
        crate::bytes::lemma_be_bytes_len(ports.last() as nat, 2);
    }
}

/// Port `i` stands in bytes `2 * i` and `2 * i + 1`.
proof fn lemma_ports_bytes_at(ports: Seq<u16>, i: int)
    requires
        0 <= i < ports.len(),
    ensures
        2 * i + 2 <= ports_bytes(ports).len(),
        ports_bytes(ports).subrange(2 * i, 2 * i + 2) == crate::bytes::be_bytes(
            ports[i] as nat,
            2,
        ),
    decreases ports.len(),
{
    let front = ports.drop_last();
    lemma_ports_bytes_len(ports);
    lemma_ports_bytes_len(front);
    crate::bytes::lemma_be_bytes_len(ports.last() as nat, 2);
    if i < front.len() {
        lemma_ports_bytes_at(front, i);
        assert(ports_bytes(ports).subrange(2 * i, 2 * i + 2) =~= ports_bytes(front).subrange(
            2 * i,
            2 * i + 2,
        ));
    } else {
        assert(ports_bytes(ports).subrange(2 * i, 2 * i + 2) =~= crate::bytes::be_bytes(
            ports.last() as nat,
            2,
        ));
    }
}

/// Reading a port list back gives the ports that were written.
proof fn lemma_ports_of_ports_bytes(ports: Seq<u16>)
    ensures
        ports_of(ports_bytes(ports), ports.len()) == ports,
{
    assert forall|i: int| 0 <= i < ports.len() implies #[trigger] ports_of(
        ports_bytes(ports),
        ports.len(),
    )[i] == ports[i] by {
        lemma_ports_bytes_at(ports, i);
        crate::bytes::lemma_be_limits();
        crate::bytes::lemma_be_value_of_be_bytes(ports[i] as nat, 2);
    }
    assert(ports_of(ports_bytes(ports), ports.len()) =~= ports);
}

/// Writing ports that were read gives the bytes they were read from.
proof fn lemma_ports_bytes_of_ports_of(bytes: Seq<u8>, count: nat)
    requires
        bytes.len() == 2 * count,
    ensures
        ports_bytes(ports_of(bytes, count)) == bytes,
    decreases count,
{
    let ports = ports_of(bytes, count);
    if count > 0 {
        let less = (count - 1) as nat;
        let front = bytes.subrange(0, 2 * less as int);
        let tail = bytes.subrange(2 * less as int, 2 * less as int + 2);
        lemma_ports_bytes_of_ports_of(front, less);
        assert forall|i: int| 0 <= i < less implies #[trigger] ports.drop_last()[i] == ports_of(
            front,
            less,
        )[i] by {
            assert(front.subrange(2 * i, 2 * i + 2) =~= bytes.subrange(2 * i, 2 * i + 2));
        }
        assert(ports.drop_last() =~= ports_of(front, less));
        crate::bytes::lemma_be_limits();
        crate::bytes::lemma_be_bytes_of_be_value(tail);
        assert(ports.last() as nat == crate::bytes::be_value(tail));
        assert(front + tail =~= bytes);
    } else {
        assert(ports_bytes(ports) =~= bytes);
    }
}

/// Where each field of an encoding stands.
proof fn lemma_encoding_layout(a: AuthorizationView)
    requires
        a.sized(),
        a.encodable(),
    ensures
        a.signing_region().len() == FIXED_LEN + 2 * a.ports.len(),
        a.encoding().len() == FIXED_LEN + 2 * a.ports.len() + SIG_LEN,
        a.encoding()[0] == VERSION,
        a.encoding().subrange(1, 17) == a.nonce,
        a.encoding().subrange(17, 25) == crate::bytes::be_bytes(a.timestamp_nanos as nat, 8),
        a.encoding().subrange(25, 41) == a.gate_id,
        a.encoding().subrange(41, 73) == a.key_thumbprint,
        a.encoding()[73] == a.ports.len(),
        a.encoding().subrange(74, FIXED_LEN + 2 * a.ports.len()) == ports_bytes(a.ports),
        a.encoding().subrange(FIXED_LEN + 2 * a.ports.len(), a.encoding().len() as int)
            == a.signature,
{
    crate::bytes::lemma_be_bytes_len(a.timestamp_nanos as nat, 8);
    lemma_ports_bytes_len(a.ports);
    let e = a.encoding();
    assert(e.subrange(1, 17) =~= a.nonce);
    assert(e.subrange(17, 25) =~= crate::bytes::be_bytes(a.timestamp_nanos as nat, 8));
    assert(e.subrange(25, 41) =~= a.gate_id);
    assert(e.subrange(41, 73) =~= a.key_thumbprint);
    assert(e.subrange(74, FIXED_LEN + 2 * a.ports.len()) =~= ports_bytes(a.ports));
    assert(e.subrange(FIXED_LEN + 2 * a.ports.len(), e.len() as int) =~= a.signature);
}

/// How long an encoding is.
pub proof fn lemma_encoding_len(a: AuthorizationView)
    requires
        a.sized(),
        a.encodable(),
    ensures
        a.encoding().len() == FIXED_LEN + 2 * a.ports.len() + SIG_LEN,
{
    lemma_encoding_layout(a);
}

/// Decoding an encoding gives the authorization back.
pub proof fn law_decode_inverts_encode(a: AuthorizationView)
    requires
        a.sized(),
        a.encodable(),
    ensures
        decoded(a.encoding()) == Ok::<AuthorizationView, WireError>(a),
{
    lemma_encoding_layout(a);
    lemma_ports_of_ports_bytes(a.ports);
    crate::bytes::lemma_be_limits();
    crate::bytes::lemma_be_value_of_be_bytes(a.timestamp_nanos as nat, 8);
    assert(decoded(a.encoding())->Ok_0 =~= a);
}

/// A buffer is accepted only as the encoding of what it decodes to: no two
/// buffers decode to the same authorization.
pub proof fn law_encode_inverts_decode(buf: Seq<u8>)
    requires
        decoded(buf) is Ok,
    ensures
        decoded(buf)->Ok_0.sized(),
        decoded(buf)->Ok_0.encodable(),
        decoded(buf)->Ok_0.encoding() == buf,
{
    let a = decoded(buf)->Ok_0;
    let count = buf[73] as int;
    let end = FIXED_LEN + 2 * count;
    crate::bytes::lemma_be_limits();
    crate::bytes::lemma_be_bytes_of_be_value(buf.subrange(17, 25));
    lemma_ports_bytes_of_ports_of(buf.subrange(74, end), count as nat);
    lemma_encoding_layout(a);
    assert(a.encoding() =~= buf) by {
        let e = a.encoding();
        assert forall|i: int| 0 <= i < buf.len() implies #[trigger] e[i] == buf[i] by {
            if 1 <= i < 17 {
                assert(e.subrange(1, 17)[i - 1] == buf.subrange(1, 17)[i - 1]);
            } else if 17 <= i < 25 {
                assert(e.subrange(17, 25)[i - 17] == buf.subrange(17, 25)[i - 17]);
            } else if 25 <= i < 41 {
                assert(e.subrange(25, 41)[i - 25] == buf.subrange(25, 41)[i - 25]);
            } else if 41 <= i < 73 {
                assert(e.subrange(41, 73)[i - 41] == buf.subrange(41, 73)[i - 41]);
            } else if 74 <= i < end {
                assert(e.subrange(74, end)[i - 74] == buf.subrange(74, end)[i - 74]);
            } else if end <= i {
                assert(e.subrange(end, e.len() as int)[i - end] == buf.subrange(
                    end,
                    buf.len() as int,
                )[i - end]);
            }
        }
    }
}

/// A truncated encoding is never accepted.
pub proof fn law_truncated_rejected(a: AuthorizationView, cut: int)
    requires
        a.sized(),
        a.encodable(),
        0 <= cut < a.encoding().len(),
    ensures
        decoded(a.encoding().take(cut)) == Err::<AuthorizationView, WireError>(WireError::TooShort),
{
    lemma_encoding_layout(a);
    let e = a.encoding();
    let t = e.take(cut);
    assert(cut > 0 ==> t[0] == e[0]);
    assert(cut > 73 ==> t[73] == e[73]);
}

/// An encoding with anything behind it is never accepted.
pub proof fn law_trailing_rejected(a: AuthorizationView, tail: Seq<u8>)
    requires
        a.sized(),
        a.encodable(),
        tail.len() > 0,
    ensures
        decoded(a.encoding() + tail) == Err::<AuthorizationView, WireError>(
            WireError::TrailingBytes,
        ),
{
    lemma_encoding_layout(a);
    let e = a.encoding();
    let t = e + tail;
    assert(t[0] == e[0]);
    assert(t[73] == e[73]);
}

/// The signing region fixes every field that it covers: two authorizations
/// that differ in anything but the signature are signed over different bytes.
pub proof fn law_signing_region_binds(a: AuthorizationView, b: AuthorizationView)
    requires
        a.sized(),
        a.encodable(),
        b.sized(),
        b.encodable(),
        a.signing_region() == b.signing_region(),
    ensures
        a.nonce == b.nonce,
        a.timestamp_nanos == b.timestamp_nanos,
        a.gate_id == b.gate_id,
        a.key_thumbprint == b.key_thumbprint,
        a.ports == b.ports,
{
    let c = AuthorizationView { signature: b.signature, ..a };
    assert(c.encoding() == b.encoding());
    law_decode_inverts_encode(b);
    law_decode_inverts_encode(c);
}

/// The selector bytes tell the suites apart.
pub proof fn law_suite_byte_injective(a: Suite, b: Suite)
    requires
        a.byte() == b.byte(),
    ensures
        a == b,
{
}

} // verus!
