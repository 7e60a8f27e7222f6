//! The agent's datapath: which sockets listen for which services, the bytes
//! spliced between a mesh connection and its backend, and the netmask of the mesh.

use vstd::prelude::*;
use vstd::string::*;

use crate::bytes::{append, same};
use crate::client::{Error, ErrorView};

verus! {

/// Whether bit `i` of a mask is set, counted from the least significant.
pub open spec fn mask_bit(mask: u32, i: u32) -> bool {
    (mask >> i) & 1u32 == 1u32
}

/// The netmask for a prefix length: that many leading ones.
pub fn prefix_to_mask(prefix: u8) -> (mask: u32)
    requires
        prefix <= 32,
    ensures
        forall|i: u32| i < 32 ==> (#[trigger] mask_bit(mask, i) <==> i + prefix >= 32),
{
    if prefix == 0 {
        assert(forall|i: u32| i < 32 ==> (0u32 >> i) & 1u32 != 1u32) by (bit_vector);
        return 0;
    }
    let shift: u32 = 32 - prefix as u32;
    let mask: u32 = 0xffff_ffffu32 << shift;
    assert(forall|i: u32|
        i < 32 ==> ((0xffff_ffffu32 << shift) >> i) & 1u32 == if i >= shift {
            1u32
        } else {
            0u32
        }) by (bit_vector)
        requires
            shift < 32,
    ;
    assert forall|i: u32| i < 32 implies (#[trigger] mask_bit(mask, i) <==> i + prefix >= 32) by {
        assert((mask >> i) & 1u32 == if i >= shift {
            1u32
        } else {
            0u32
        });
    }
    mask
}

/// Attempts to knock and connect for one flow: the first, and one more knock on
/// a transient miss.
pub const DIAL_ATTEMPTS: u32 = 2;

/// Milliseconds to wait after the knock for a flow before connecting.
pub const DIAL_GRACE_MS: u64 = 40;

/// What is said of a backend that could not be dialled.
pub open spec fn dial_words(e: ErrorView) -> Seq<char> {
    match e {
        ErrorView::Unreachable(last) => "backend unreachable after knocking: "@ + last,
        _ => e.words(),
    }
}

/// Why a backend could not be dialled, in words.
pub fn dial_error(e: &Error) -> (r: String)
    ensures
        r@ == dial_words(e@),
{
    match e {
        Error::Unreachable(last) => {
            let mut out = String::from_str("backend unreachable after knocking: ");
            out.append(last.as_str());
            out
        },
        _ => e.message(),
    }
}

/// The address and port of a service on the mesh.
#[derive(Debug, Clone, Copy, PartialEq, Eq)]
pub struct MeshPort {
    pub ip: [u8; 4],
    pub port: u16,
}

impl MeshPort {
    /// Whether two services are the same.
    pub fn is(&self, other: &MeshPort) -> (r: bool)
        ensures
            r == (*self == *other),
    {
        let r = self.port == other.port && same(self.ip.as_slice(), other.ip.as_slice());
        proof {
            if r {
                assert(self.ip =~= other.ip);
            }
        }
        r
    }
}

/// Which socket listens for each service: one each, replaced when a connection
/// lands on it.
pub struct Listeners<H: Copy> {
    slots: Vec<(MeshPort, H)>,
}

/// The socket for `service` among `slots`.
spec fn slot_socket<H>(slots: Seq<(MeshPort, H)>, service: MeshPort) -> Option<H>
    decreases slots.len(),
{
    if slots.len() == 0 {
        None
    } else if slots[0].0 == service {
        Some(slots[0].1)
    } else {
        slot_socket(slots.drop_first(), service)
    }
}

proof fn lemma_slot_socket<H>(slots: Seq<(MeshPort, H)>, service: MeshPort, i: int)
    requires
        0 <= i <= slots.len(),
        forall|k: int| 0 <= k < i ==> (#[trigger] slots[k]).0 != service,
        i < slots.len() ==> slots[i].0 == service,
    ensures
        slot_socket(slots, service) == if i < slots.len() {
            Some(slots[i].1)
        } else {
            None
        },
    decreases slots.len(),
{
    if slots.len() > 0 && i > 0 {
        assert(slots[0].0 != service);
        let rest = slots.drop_first();
        assert forall|k: int| 0 <= k < i - 1 implies (#[trigger] rest[k]).0 != service by {
            assert(rest[k] == slots[k + 1]);
        }
        lemma_slot_socket(rest, service, i - 1);
    }
}

impl<H: Copy> Listeners<H> {
    /// The services, in the order in which they were added.
    pub closed spec fn services(self) -> Seq<MeshPort> {
        self.slots@.map_values(|slot: (MeshPort, H)| slot.0)
    }

    /// The socket that listens for a service.
    pub closed spec fn socket_for(self, service: MeshPort) -> Option<H> {
        slot_socket(self.slots@, service)
    }

    #[verifier::type_invariant]
    spec fn one_each(self) -> bool {
        forall|i: int, j: int|
            0 <= i < j < self.slots@.len() ==> (#[trigger] self.slots@[i]).0 != (
            #[trigger] self.slots@[j]).0
    }

    pub fn new() -> (r: Self)
        ensures
            r.services() == Seq::<MeshPort>::empty(),
            forall|service: MeshPort| (#[trigger] r.socket_for(service)) is None,
    {
        let r = Listeners { slots: Vec::new() };
        assert(r.services() =~= Seq::<MeshPort>::empty());
        r
    }

    pub fn len(&self) -> (n: usize)
        ensures
            n == self.services().len(),
    {
        self.slots.len()
    }

    /// A service and the socket that listens for it.
    pub fn at(&self, i: usize) -> (r: (MeshPort, H))
        requires
            i < self.services().len(),
        ensures
            r.0 == self.services()[i as int],
            self.socket_for(r.0) == Some(r.1),
    {
        proof {
            use_type_invariant(self);
            lemma_slot_socket(self.slots@, self.slots@[i as int].0, i as int);
        }
        let slot = &self.slots[i];
        (slot.0, slot.1)
    }

    /// From now on `socket` listens for `service`.
    pub fn listen(&mut self, service: MeshPort, socket: H)
        ensures
            forall|other: MeshPort| #[trigger]
                final(self).socket_for(other) == if other == service {
                    Some(socket)
                } else {
                    old(self).socket_for(other)
                },
            final(self).services() == if old(self).services().contains(service) {
                old(self).services()
            } else {
                old(self).services().push(service)
            },
    {
        proof {
            use_type_invariant(&*self);
        }
        let ghost before = self.slots@;
        let n: usize = self.slots.len();
        let mut slots: Vec<(MeshPort, H)> = Vec::new();
        let mut found: bool = false;
        let ghost mut place: int = 0;
        let mut i: usize = 0;
        while i < n
            invariant
                i <= n,
                n == self.slots@.len(),
                *self == *old(self),
                before == self.slots@,
                slots@.len() == i,
                forall|k: int| 0 <= k < i ==> (#[trigger] slots@[k]).0 == before[k].0,
                forall|k: int|
                    0 <= k < i ==> (#[trigger] slots@[k]).1 == if before[k].0 == service {
                        socket
                    } else {
                        before[k].1
                    },
                found == (exists|k: int| 0 <= k < i && (#[trigger] before[k]).0 == service),
                found ==> 0 <= place < i && before[place].0 == service,
            decreases n - i,
        {
            let slot = &self.slots[i];
            if slot.0.is(&service) {
                slots.push((service, socket));
                found = true;
                proof {
                    place = i as int;
                }
            } else {
                slots.push((slot.0, slot.1));
            }
            i += 1;
        }
        if !found {
            slots.push((service, socket));
        }
        proof {
            let after = slots@;
            let names = before.map_values(|slot: (MeshPort, H)| slot.0);
            if found {
                assert(names[place] == service);
                assert(after.map_values(|slot: (MeshPort, H)| slot.0) =~= names);
            } else {
                assert(!names.contains(service));
                assert(after.map_values(|slot: (MeshPort, H)| slot.0) =~= names.push(service));
            }
            assert forall|i: int, j: int| 0 <= i < j < after.len() implies (#[trigger] after[i]).0
                != (#[trigger] after[j]).0 by {
                assert(before[i].0 == after[i].0);
                if j < before.len() {
                    assert(before[j].0 == after[j].0);
                }
            }
            assert forall|other: MeshPort| #[trigger]
                slot_socket(after, other) == if other == service {
                    Some(socket)
                } else {
                    slot_socket(before, other)
                } by {
                lemma_same_slots(before, after, service, socket, other);
            }
        }
        self.slots = slots;
    }
}

/// The socket for `other` once `service` has been given a socket.
proof fn lemma_same_slots<H>(
    before: Seq<(MeshPort, H)>,
    after: Seq<(MeshPort, H)>,
    service: MeshPort,
    socket: H,
    other: MeshPort,
)
    requires
        after.len() == before.len() || after.len() == before.len() + 1 && after.last() == (
            service,
            socket,
        ),
        after.len() == before.len() ==> exists|k: int|
            0 <= k < before.len() && (#[trigger] before[k]).0 == service,
        forall|k: int| 0 <= k < before.len() ==> (#[trigger] after[k]).0 == before[k].0,
        forall|k: int|
            0 <= k < before.len() ==> (#[trigger] after[k]).1 == if before[k].0 == service {
                socket
            } else {
                before[k].1
            },
    ensures
        slot_socket(after, other) == if other == service {
            Some(socket)
        } else {
            slot_socket(before, other)
        },
    decreases before.len(),
{
    if before.len() == 0 {
        assert(after[0] == after.last());
        assert(after.drop_first() =~= before);
    } else if before[0].0 == other {
        assert(after[0].0 == other);
    } else {
        assert(after[0].0 != other);
        let (b, a) = (before.drop_first(), after.drop_first());
        assert forall|k: int| 0 <= k < b.len() implies (#[trigger] a[k]).0 == b[k].0 && a[k].1
            == if b[k].0 == service {
            socket
        } else {
            b[k].1
        } by {
            assert(a[k] == after[k + 1]);
            assert(b[k] == before[k + 1]);
        }
        if other == service {
            if after.len() == before.len() {
                let k = choose|k: int| 0 <= k < before.len() && (#[trigger] before[k]).0 == service;
                assert(b[k - 1].0 == service);
            }
            lemma_same_slots(b, a, service, socket, other);
        } else if after.len() > before.len() || exists|k: int|
            0 <= k < b.len() && (#[trigger] b[k]).0 == service {
            lemma_same_slots(b, a, service, socket, other);
        } else {
            assert forall|k: int| 0 <= k < b.len() implies #[trigger] a[k] == b[k] by {
                assert(b[k].0 != service);
            }
            assert(a =~= b);
        }
    }
}

/// A service that was added always has a listener, whichever listeners have been
/// replaced since; one that was not has none.
pub proof fn law_each_service_has_a_listener<H: Copy>(listeners: Listeners<H>, service: MeshPort)
    ensures
        listeners.services().contains(service) == (listeners.socket_for(service) is Some),
{
    lemma_listed_has_socket(listeners.slots@, service);
}

proof fn lemma_listed_has_socket<H>(slots: Seq<(MeshPort, H)>, service: MeshPort)
    ensures
        slots.map_values(|slot: (MeshPort, H)| slot.0).contains(service) == (slot_socket(
            slots,
            service,
        ) is Some),
    decreases slots.len(),
{
    let names = slots.map_values(|slot: (MeshPort, H)| slot.0);
    if slots.len() > 0 {
        let rest = slots.drop_first();
        let fewer = rest.map_values(|slot: (MeshPort, H)| slot.0);
        lemma_listed_has_socket(rest, service);
        assert(names[0] == slots[0].0);
        assert(fewer =~= names.drop_first());
        if fewer.contains(service) {
            let k = choose|k: int| 0 <= k < fewer.len() && fewer[k] == service;
            assert(names[k + 1] == service);
        }
        if names.contains(service) && names[0] != service {
            let k = choose|k: int| 0 <= k < names.len() && names[k] == service;
            assert(fewer[k - 1] == service);
        }
    }
}

/// Whether a connection has landed on a listening socket, which a fresh listener
/// must then replace.
pub fn has_landed(listening: bool, active: bool) -> (r: bool)
    ensures
        r == (!listening && active),
{
    !listening && active
}

/// What came of reading from the tunnel.
pub enum TunRead {
    Bytes(usize),
    Interrupted,
    Broken,
}

/// What the tunnel's reader does next.
#[derive(Debug, Clone, Copy, PartialEq, Eq, Structural)]
pub enum TunStep {
    /// Hand the first bytes of the buffer on.
    Forward(usize),
    Retry,
    Stop,
}

/// An interrupted read is tried again; the end of the tunnel, or a broken one,
/// ends the reader.
pub fn tun_step(read: TunRead) -> (r: TunStep)
    ensures
        r == match read {
            TunRead::Bytes(n) => if n == 0 {
                TunStep::Stop
            } else {
                TunStep::Forward(n)
            },
            TunRead::Interrupted => TunStep::Retry,
            TunRead::Broken => TunStep::Stop,
        },
{
    match read {
        TunRead::Bytes(n) => if n == 0 {
            TunStep::Stop
        } else {
            TunStep::Forward(n)
        },
        TunRead::Interrupted => TunStep::Retry,
        TunRead::Broken => TunStep::Stop,
    }
}

/// What came of an attempt to read or write without blocking.
pub enum Attempt {
    /// This many bytes were moved.
    Moved(usize),
    /// Nothing can be moved now.
    WouldBlock,
    /// The connection is broken.
    Failed,
}

/// What to do with a flow.
#[derive(Debug, Clone, Copy, PartialEq, Eq, Structural)]
pub enum FlowStep {
    /// Carry on with this round.
    Continue,
    /// The backend has sent all it will: close the mesh side, and keep the flow
    /// for as long as that side is open.
    CloseMesh,
    /// The flow is over.
    Finish,
}

/// The bytes on their way through one flow, in both directions.
pub struct Splice {
    to_backend: Vec<u8>,
    to_mesh: Vec<u8>,
}

/// What remains of a buffer once its first `n` bytes are gone.
fn drain_front(buffer: &mut Vec<u8>, n: usize)
    requires
        n <= old(buffer)@.len(),
    ensures
        final(buffer)@ == old(buffer)@.skip(n as int),
{
    let rest = buffer.split_off(n);
    *buffer = rest;
    assert(buffer@ =~= old(buffer)@.skip(n as int));
}

impl Splice {
    /// Bytes from the mesh that the backend has yet to take.
    pub closed spec fn outbound(self) -> Seq<u8> {
        self.to_backend@
    }

    /// Bytes from the backend that the mesh has yet to take.
    pub closed spec fn inbound(self) -> Seq<u8> {
        self.to_mesh@
    }

    pub fn new() -> (r: Self)
        ensures
            r.outbound() == Seq::<u8>::empty(),
            r.inbound() == Seq::<u8>::empty(),
    {
        Splice { to_backend: Vec::new(), to_mesh: Vec::new() }
    }

    /// Whether to read from the mesh: only once the backend has taken all.
    pub fn wants_mesh(&self) -> (r: bool)
        ensures
            r == (self.outbound().len() == 0),
    {
        self.to_backend.len() == 0
    }

    /// Whether to read from the backend: only once the mesh has taken all.
    pub fn wants_backend(&self) -> (r: bool)
        ensures
            r == (self.inbound().len() == 0),
    {
        self.to_mesh.len() == 0
    }

    /// Bytes came from the mesh.
    pub fn from_mesh(&mut self, data: &[u8])
        ensures
            final(self).outbound() == old(self).outbound() + data@,
            final(self).inbound() == old(self).inbound(),
    {
        append(&mut self.to_backend, data);
    }

    /// What to write to the backend.
    pub fn for_backend(&self) -> (r: &[u8])
        ensures
            r@ == self.outbound(),
    {
        self.to_backend.as_slice()
    }

    /// The backend was written to.
    pub fn backend_took(&mut self, attempt: Attempt) -> (r: FlowStep)
        requires
            attempt matches Attempt::Moved(n) ==> n <= old(self).outbound().len(),
        ensures
            final(self).outbound() == match attempt {
                Attempt::Moved(n) => old(self).outbound().skip(n as int),
                _ => old(self).outbound(),
            },
            final(self).inbound() == old(self).inbound(),
            r == if attempt is Failed {
                FlowStep::Finish
            } else {
                FlowStep::Continue
            },
    {
        match attempt {
            Attempt::Moved(n) => {
                drain_front(&mut self.to_backend, n);
                FlowStep::Continue
            },
            Attempt::WouldBlock => FlowStep::Continue,
            Attempt::Failed => FlowStep::Finish,
        }
    }

    /// The backend was read into `buf`. Nothing read means that it has sent all
    /// it will.
    pub fn backend_gave(&mut self, buf: &[u8], attempt: Attempt) -> (r: FlowStep)
        requires
            attempt matches Attempt::Moved(n) ==> n <= buf@.len(),
        ensures
            final(self).inbound() == match attempt {
                Attempt::Moved(n) => old(self).inbound() + buf@.take(n as int),
                _ => old(self).inbound(),
            },
            final(self).outbound() == old(self).outbound(),
            r == match attempt {
                Attempt::Moved(n) => if n == 0 {
                    FlowStep::CloseMesh
                } else {
                    FlowStep::Continue
                },
                Attempt::WouldBlock => FlowStep::Continue,
                Attempt::Failed => FlowStep::Finish,
            },
    {
        match attempt {
            Attempt::Moved(n) => {
                if n == 0 {
                    assert(self.inbound() + buf@.take(0) =~= self.inbound());
                    return FlowStep::CloseMesh;
                }
                let data = vstd::slice::slice_subrange(buf, 0, n);
                assert(data@ =~= buf@.take(n as int));
                append(&mut self.to_mesh, data);
                FlowStep::Continue
            },
            Attempt::WouldBlock => FlowStep::Continue,
            Attempt::Failed => FlowStep::Finish,
        }
    }

    /// What to send to the mesh.
    pub fn for_mesh(&self) -> (r: &[u8])
        ensures
            r@ == self.inbound(),
    {
        self.to_mesh.as_slice()
    }

    /// The mesh took this many bytes.
    pub fn mesh_took(&mut self, n: usize)
        requires
            n <= old(self).inbound().len(),
        ensures
            final(self).inbound() == old(self).inbound().skip(n as int),
            final(self).outbound() == old(self).outbound(),
    {
        drain_front(&mut self.to_mesh, n);
    }

    /// Whether the flow lives on: while the mesh side is open or anything is
    /// still on its way.
    pub fn alive(&self, mesh_open: bool) -> (r: bool)
        ensures
            r == (mesh_open || self.inbound().len() > 0 || self.outbound().len() > 0),
    {
        mesh_open || self.to_mesh.len() > 0 || self.to_backend.len() > 0
    }
}

/// One thing that happens to a buffer: bytes come in, or its first `n` leave.
pub enum Movement {
    In(Seq<u8>),
    Out(nat),
}

/// The buffer after movements; it starts empty.
pub open spec fn buffered(moves: Seq<Movement>) -> Seq<u8>
    decreases moves.len(),
{
    if moves.len() == 0 {
        Seq::empty()
    } else {
        let before = buffered(moves.drop_last());
        match moves.last() {
            Movement::In(data) => before + data,
            Movement::Out(n) => before.skip(n as int),
        }
    }
}

/// All that came in.
pub open spec fn came(moves: Seq<Movement>) -> Seq<u8>
    decreases moves.len(),
{
    if moves.len() == 0 {
        Seq::empty()
    } else {
        match moves.last() {
            Movement::In(data) => came(moves.drop_last()) + data,
            Movement::Out(_) => came(moves.drop_last()),
        }
    }
}

/// All that left, in the order in which it left.
pub open spec fn left(moves: Seq<Movement>) -> Seq<u8>
    decreases moves.len(),
{
    if moves.len() == 0 {
        Seq::empty()
    } else {
        match moves.last() {
            Movement::In(_) => left(moves.drop_last()),
            Movement::Out(n) => left(moves.drop_last()) + buffered(moves.drop_last()).take(
                n as int,
            ),
        }
    }
}

/// No more leaves than is there.
pub open spec fn possible(moves: Seq<Movement>) -> bool
    decreases moves.len(),
{
    if moves.len() == 0 {
        true
    } else {
        possible(moves.drop_last()) && match moves.last() {
            Movement::In(_) => true,
            Movement::Out(n) => n <= buffered(moves.drop_last()).len(),
        }
    }
}

/// Nothing is lost, repeated or reordered: what left, then what is buffered, is
/// what came.
pub proof fn law_bytes_pass_in_order(moves: Seq<Movement>)
    requires
        possible(moves),
    ensures
        left(moves) + buffered(moves) == came(moves),
    decreases moves.len(),
{
    if moves.len() > 0 {
        law_bytes_pass_in_order(moves.drop_last());
        let before = buffered(moves.drop_last());
        match moves.last() {
            Movement::In(data) => {
                assert(left(moves) + buffered(moves) =~= came(moves));
            },
            Movement::Out(n) => {
                assert(before.take(n as int) + before.skip(n as int) =~= before);
                assert(left(moves) + buffered(moves) =~= came(moves));
            },
        }
    } else {
        assert(left(moves) + buffered(moves) =~= came(moves));
    }
}

} // verus!
