//! The agent's flows, and what a gate's core hands to its daemon.

use vstd::prelude::*;
use vstd::string::*;

use crate::adapters::{GateQueue, Opening};
use crate::addr::IpAddr;
use crate::client::{Attempts, Error, Next};
use crate::gatekeeper::GateWriter;
use crate::mesh::{
    has_landed, prefix_to_mask, tun_step, Attempt, FlowStep, Listeners, MeshPort, Splice, TunRead,
    TunStep,
};

verus! {

/// A netmask has as many leading ones as the prefix is long, and no others.
pub proof fn law_prefix_to_mask(prefix: u8, mask: u32)
    requires
        prefix <= 32,
        call_ensures(prefix_to_mask, (prefix,), mask),
    ensures
        forall|i: u32| #![trigger mask >> i]
            i < 32 ==> (mask >> i) & 1u32 == if i >= 32 - prefix {
                1u32
            } else {
                0u32
            },
{
    assert forall|i: u32| #![trigger mask >> i] i < 32 implies (mask >> i) & 1u32 == if i >= 32
        - prefix {
        1u32
    } else {
        0u32
    } by {
        assert(crate::mesh::mask_bit(mask, i) <==> i + prefix >= 32);
        let x = mask >> i;
        assert(x & 1u32 == 0u32 || x & 1u32 == 1u32) by (bit_vector);
    }
}

/// A flow is knocked for twice at most; 40 milliseconds pass between its knock and its
/// connection, and 30 for other connections.
pub proof fn law_patience()
    ensures
        crate::mesh::DIAL_ATTEMPTS == 2,
        crate::mesh::DIAL_GRACE_MS == 40,
        crate::client::KNOCK_GRACE_MS == 30,
{
}

/// Bytes from the mesh wait, in order, behind those that the backend has yet to
/// take; the other direction is not touched.
pub proof fn law_from_mesh(
    splice: &mut Splice,
    data: &[u8],
    out: &[u8],
    out_after: &[u8],
    back: &[u8],
    back_after: &[u8],
)
    requires
        call_ensures(Splice::for_backend, (old(splice),), out),
        call_ensures(Splice::for_mesh, (old(splice),), back),
        call_ensures(Splice::from_mesh, (splice, data), ()),
        call_ensures(Splice::for_backend, (final(splice),), out_after),
        call_ensures(Splice::for_mesh, (final(splice),), back_after),
    ensures
        out_after@ == out@ + data@,
        back_after@ == back@,
{
}

/// What the backend took is gone from the front of what waits for it; a backend that
/// is broken ends the flow.
pub proof fn law_backend_took(
    splice: &mut Splice,
    attempt: Attempt,
    out: &[u8],
    out_after: &[u8],
    back: &[u8],
    back_after: &[u8],
    step: FlowStep,
)
    requires
        call_ensures(Splice::for_backend, (old(splice),), out),
        call_ensures(Splice::for_mesh, (old(splice),), back),
        attempt matches Attempt::Moved(n) ==> n <= out@.len(),
        call_ensures(Splice::backend_took, (splice, attempt), step),
        call_ensures(Splice::for_backend, (final(splice),), out_after),
        call_ensures(Splice::for_mesh, (final(splice),), back_after),
    ensures
        attempt matches Attempt::Moved(n) ==> out@ == out@.take(n as int) + out_after@,
        !(attempt is Moved) ==> out_after@ == out@,
        back_after@ == back@,
        step == FlowStep::Finish <==> attempt is Failed,
        step == FlowStep::Continue <==> !(attempt is Failed),
{
    if let Attempt::Moved(n) = attempt {
        assert(out@ =~= out@.take(n as int) + out@.skip(n as int));
    }
}

/// What the backend gave waits, in order, behind what the mesh has yet to take; a
/// backend that gave nothing has given all.
pub proof fn law_backend_gave(
    splice: &mut Splice,
    buf: &[u8],
    attempt: Attempt,
    out: &[u8],
    out_after: &[u8],
    back: &[u8],
    back_after: &[u8],
    step: FlowStep,
)
    requires
        call_ensures(Splice::for_backend, (old(splice),), out),
        call_ensures(Splice::for_mesh, (old(splice),), back),
        attempt matches Attempt::Moved(n) ==> n <= buf@.len(),
        call_ensures(Splice::backend_gave, (splice, buf, attempt), step),
        call_ensures(Splice::for_backend, (final(splice),), out_after),
        call_ensures(Splice::for_mesh, (final(splice),), back_after),
    ensures
        attempt matches Attempt::Moved(n) ==> back_after@ == back@ + buf@.take(n as int),
        !(attempt is Moved) ==> back_after@ == back@,
        out_after@ == out@,
        step == FlowStep::CloseMesh <==> attempt == Attempt::Moved(0),
        step == FlowStep::Finish <==> attempt is Failed,
{
}

/// What the mesh took is gone from the front of what waits for it.
pub proof fn law_mesh_took(
    splice: &mut Splice,
    n: usize,
    out: &[u8],
    out_after: &[u8],
    back: &[u8],
    back_after: &[u8],
)
    requires
        call_ensures(Splice::for_backend, (old(splice),), out),
        call_ensures(Splice::for_mesh, (old(splice),), back),
        n <= back@.len(),
        call_ensures(Splice::mesh_took, (splice, n), ()),
        call_ensures(Splice::for_backend, (final(splice),), out_after),
        call_ensures(Splice::for_mesh, (final(splice),), back_after),
    ensures
        back@ == back@.take(n as int) + back_after@,
        out_after@ == out@,
{
    assert(back@ =~= back@.take(n as int) + back@.skip(n as int));
}

/// A flow is read from only where nothing waits, and lives while anything waits or
/// the mesh side is open; a new one has nothing waiting.
pub proof fn law_splice_wants(
    splice: &Splice,
    out: &[u8],
    back: &[u8],
    mesh: bool,
    backend: bool,
    open: bool,
    alive: bool,
    fresh: Splice,
    none: &[u8],
    nothing: &[u8],
)
    requires
        call_ensures(Splice::for_backend, (splice,), out),
        call_ensures(Splice::for_mesh, (splice,), back),
        call_ensures(Splice::wants_mesh, (splice,), mesh),
        call_ensures(Splice::wants_backend, (splice,), backend),
        call_ensures(Splice::alive, (splice, open), alive),
        call_ensures(Splice::new, (), fresh),
        call_ensures(Splice::for_backend, (&fresh,), none),
        call_ensures(Splice::for_mesh, (&fresh,), nothing),
    ensures
        mesh == (out@.len() == 0),
        backend == (back@.len() == 0),
        alive == (open || out@.len() > 0 || back@.len() > 0),
        none@.len() == 0,
        nothing@.len() == 0,
{
}

/// Reading from the tunnel goes on until it ends or breaks; an interrupted read is
/// tried again.
pub proof fn law_tun_step(read: TunRead, r: TunStep, listening: bool, active: bool, landed: bool)
    requires
        call_ensures(tun_step, (read,), r),
        call_ensures(has_landed, (listening, active), landed),
    ensures
        r == TunStep::Stop <==> (read is Broken || read == TunRead::Bytes(0)),
        r == TunStep::Retry <==> read is Interrupted,
        read matches TunRead::Bytes(n) ==> n > 0 ==> r == TunStep::Forward(n),
        landed == (active && !listening),
{
}

/// Two services are the same if address and port are.
pub proof fn law_mesh_port_is(a: &MeshPort, b: &MeshPort, r: bool)
    requires
        call_ensures(MeshPort::is, (a, b), r),
    ensures
        r == (a.ip@ == b.ip@ && a.port == b.port),
{
    if a.ip@ == b.ip@ {
        assert(a.ip =~= b.ip);
    }
}

/// From now on a socket listens for a service: each other service keeps its place
/// and its socket, and the service has one place.
pub proof fn law_listen<H: Copy>(
    listeners: &mut Listeners<H>,
    service: MeshPort,
    socket: H,
    n: usize,
    m: usize,
    i: usize,
    before: (MeshPort, H),
    after: (MeshPort, H),
    last: (MeshPort, H),
)
    requires
        call_ensures(Listeners::<H>::len, (old(listeners),), n),
        call_ensures(Listeners::<H>::listen, (listeners, service, socket), ()),
        call_ensures(Listeners::<H>::len, (final(listeners),), m),
        i < n,
        call_ensures(Listeners::<H>::at, (old(listeners), i), before),
        call_ensures(Listeners::<H>::at, (final(listeners), i), after),
        call_ensures(Listeners::<H>::at, (final(listeners), (m - 1) as usize), last),
    ensures
        m == n || m == n + 1,
        after.0 == before.0,
        after.1 == if before.0 == service {
            socket
        } else {
            before.1
        },
        m == n + 1 ==> before.0 != service && last.0 == service && last.1 == socket,
        m == n ==> exists|k: int|
            0 <= k < n && #[trigger] final(listeners).services()[k] == service,
{
    let s = old(listeners).services();
    assert(s[i as int] == before.0);
    if m == n {
        assert(s.contains(service)) by {
            if !s.contains(service) {
                assert(s.push(service).len() == s.len() + 1);
            }
        }
        let k = choose|k: int| 0 <= k < s.len() && s[k] == service;
        assert(final(listeners).services()[k] == service);
    }
}

/// The first service has the first place, and there is none before.
pub proof fn law_first_listener<H: Copy>(
    fresh: Listeners<H>,
    none: usize,
    listeners: &mut Listeners<H>,
    service: MeshPort,
    socket: H,
    m: usize,
    first: (MeshPort, H),
)
    requires
        call_ensures(Listeners::<H>::new, (), fresh),
        call_ensures(Listeners::<H>::len, (&fresh,), none),
        *old(listeners) == fresh,
        call_ensures(Listeners::<H>::listen, (listeners, service, socket), ()),
        call_ensures(Listeners::<H>::len, (final(listeners),), m),
        call_ensures(Listeners::<H>::at, (final(listeners), 0usize), first),
    ensures
        none == 0,
        m == 1,
        first == (service, socket),
{
}

/// Knocking and connecting is tried as often as was asked for, and once at least;
/// what is reported is the last failure.
pub proof fn law_attempts(
    asked: u32,
    states: Seq<Attempts>,
    words: Seq<String>,
    nexts: Seq<Next>,
)
    requires
        states.len() == nexts.len(),
        words.len() == nexts.len(),
        nexts.len() > 0,
        call_ensures(Attempts::begin, (asked,), states[0]),
        forall|i: int|
            0 <= i < nexts.len() ==> call_ensures(
                Attempts::failed,
                (states[i], words[i]),
                #[trigger] nexts[i],
            ),
        forall|i: int|
            0 <= i < nexts.len() - 1 ==> (#[trigger] nexts[i]) == Next::Again(states[i + 1]),
    ensures
        forall|i: int|
            0 <= i < nexts.len() ==> ((#[trigger] nexts[i]) is GiveUp <==> i + 1 == (if asked == 0 {
                1
            } else {
                asked as int
            })),
        forall|i: int|
            0 <= i < nexts.len() ==> ((#[trigger] nexts[i]) matches Next::GiveUp(e)
                ==> e is Unreachable && e->Unreachable_0@ == words[i]@),
{
    let total: int = if asked == 0 {
        1
    } else {
        asked as int
    };
    assert forall|i: int| 0 <= i < nexts.len() implies states[i].remaining() == total - i && ((
    #[trigger] nexts[i]) is GiveUp <==> i + 1 == total) by {
        lemma_attempts_left(total, states, words, nexts, i);
    }
    assert forall|i: int| 0 <= i < nexts.len() implies ((#[trigger] nexts[i]) matches Next::GiveUp(
        e,
    ) ==> e is Unreachable && e->Unreachable_0@ == words[i]@) by {
        assert(call_ensures(Attempts::failed, (states[i], words[i]), nexts[i]));
    }
}

proof fn lemma_attempts_left(
    total: int,
    states: Seq<Attempts>,
    words: Seq<String>,
    nexts: Seq<Next>,
    i: int,
)
    requires
        states.len() == nexts.len(),
        words.len() == nexts.len(),
        0 <= i < nexts.len(),
        states[0].remaining() == total,
        forall|k: int|
            0 <= k < nexts.len() ==> call_ensures(
                Attempts::failed,
                (states[k], words[k]),
                #[trigger] nexts[k],
            ),
        forall|k: int|
            0 <= k < nexts.len() - 1 ==> (#[trigger] nexts[k]) == Next::Again(states[k + 1]),
    ensures
        states[i].remaining() == total - i,
        nexts[i] is GiveUp <==> i + 1 == total,
    decreases i,
{
    assert(call_ensures(Attempts::failed, (states[i], words[i]), nexts[i]));
    if i > 0 {
        lemma_attempts_left(total, states, words, nexts, i - 1);
        assert(call_ensures(Attempts::failed, (states[i - 1], words[i - 1]), nexts[i - 1]));
        assert(nexts[i - 1] == Next::Again(states[i]));
    }
}

/// What is ordered comes out last, as it was ordered, behind what was there.
pub proof fn law_ordered_opening_comes_out(
    queue: &mut GateQueue,
    source: IpAddr,
    ports: &[u16],
    ttl_nanos: u64,
    later: &mut GateQueue,
    out: Vec<Opening>,
    again: &mut GateQueue,
    nothing: Vec<Opening>,
)
    requires
        call_ensures(<GateQueue as GateWriter>::open, (queue, source, ports, ttl_nanos), ()),
        *old(later) == *final(queue),
        call_ensures(GateQueue::drain, (later,), out),
        *old(again) == *final(later),
        call_ensures(GateQueue::drain, (again,), nothing),
    ensures
        out@.len() == old(queue).openings().len() + 1,
        out@.last().source == source,
        out@.last().ports@ == ports@,
        out@.last().ttl_nanos == ttl_nanos,
        forall|i: int|
            0 <= i < out@.len() - 1 ==> (#[trigger] out@[i])@ == old(queue).openings()[i],
        nothing@.len() == 0,
{
    let all = out@.map_values(|o: Opening| o@);
    assert(all.len() == out@.len());
    assert(all[out@.len() - 1] == out@.last()@);
    assert(nothing@.map_values(|o: Opening| o@).len() == 0);
    assert forall|i: int| 0 <= i < out@.len() - 1 implies (#[trigger] out@[i])@ == old(
        queue,
    ).openings()[i] by {
        assert(all[i] == out@[i]@);
    }
}

/// A new queue has nothing to carry out.
pub proof fn law_new_queue(fresh: GateQueue, queue: &mut GateQueue, out: Vec<Opening>)
    requires
        call_ensures(GateQueue::new, (), fresh),
        *old(queue) == fresh,
        call_ensures(GateQueue::drain, (queue,), out),
    ensures
        out@.len() == 0,
{
    assert(out@.map_values(|o: Opening| o@).len() == 0);
}

} // verus!
