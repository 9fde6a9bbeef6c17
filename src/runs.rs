//! Runs of the client's state machine over a sequence of outcomes, and what
//! holds of them: the order in which sockets are tried, and that a failed
//! read or write costs at most one reconnect.
use crate::client::{
    decode_frame_spec, dispatch, fail, pop, reconnect_steps, step, without_retry, write_bytes, ClientState, FrameKind, Outcome, Part,
    Request, Step,
};
use crate::codec::le_value;
use crate::error::RichPresenceError;
use crate::transport::{first_base_dir, socket_path, SOCKET_COUNT};
use vstd::prelude::*;
use vstd::utf8::decode_utf8;

verus! {

/// The requests a client makes while the steps of its operation have the
/// outcomes `outs`, one after the other, and the state it is left in.
pub open spec fn run(c: ClientState, outs: Seq<Outcome>) -> (ClientState, Seq<Request>)
    decreases outs.len(),
{
    if outs.len() == 0 {
        (c, seq![])
    } else {
        let (c1, r) = step(c, outs[0]);
        let (c2, rs) = run(c1, outs.drop_first());
        (c2, seq![r] + rs)
    }
}

/// How many reconnects a sequence of requests holds: each begins by looking
/// up the socket directory.
pub open spec fn reconnects(reqs: Seq<Request>) -> nat
    decreases reqs.len(),
{
    if reqs.len() == 0 {
        0
    } else {
        (if reqs[0] is LookUpBaseDir {
            1nat
        } else {
            0nat
        }) + reconnects(reqs.drop_first())
    }
}

/// `n` failures in a row.
pub open spec fn failures(n: nat) -> Seq<Outcome> {
    Seq::new(n, |i: int| Outcome::Failed)
}

proof fn lemma_run_one(c: ClientState, o: Outcome)
    ensures
        run(c, seq![o]) == (step(c, o).0, seq![step(c, o).1]),
{
    let outs = seq![o];
    assert(outs.len() == 1);
    assert(outs[0] == o);
    assert(outs.drop_first() =~= Seq::<Outcome>::empty());
    let c1 = step(c, o).0;
    assert(run(c1, Seq::<Outcome>::empty()) == (c1, Seq::<Request>::empty()));
    assert(seq![step(c, o).1] + Seq::<Request>::empty() =~= seq![step(c, o).1]);
}

proof fn lemma_run_concat(c: ClientState, a: Seq<Outcome>, b: Seq<Outcome>)
    ensures
        run(c, a + b) == (run(run(c, a).0, b).0, run(c, a).1 + run(run(c, a).0, b).1),
    decreases a.len(),
{
    if a.len() == 0 {
        assert(a + b =~= b);
        assert(run(c, a).1 + run(c, b).1 =~= run(c, b).1);
    } else {
        let c1 = step(c, a[0]).0;
        assert((a + b)[0] == a[0]);
        assert((a + b).drop_first() =~= a.drop_first() + b);
        lemma_run_concat(c1, a.drop_first(), b);
        let r = step(c, a[0]).1;
        assert(seq![r] + (run(c1, a.drop_first()).1 + run(run(c1, a.drop_first()).0, b).1) =~= (
        seq![r] + run(c1, a.drop_first()).1) + run(run(c1, a.drop_first()).0, b).1);
    }
}

/// From the probe of socket `i`, `j` failures move on to socket `i + j`,
/// asking for the sockets after `i` in ascending order.
proof fn lemma_probe_failures(c: ClientState, i: nat, j: nat)
    requires
        c.steps.len() > 0,
        c.steps[0] == Step::Probe(i as u32),
        i + j < SOCKET_COUNT,
    ensures
        run(c, failures(j)) == (
            ClientState { steps: c.steps.update(0, Step::Probe((i + j) as u32)), ..c },
            Seq::new(j, |t: int| Request::Connect(socket_path(c.base, (i + t + 1) as nat))),
        ),
    decreases j,
{
    reveal(step);
    if j == 0 {
        assert(c.steps.update(0, Step::Probe(i as u32)) =~= c.steps);
        assert(run(c, failures(j)).1 =~= Seq::new(
            j,
            |t: int| Request::Connect(socket_path(c.base, (i + t + 1) as nat)),
        ));
    } else {
        let c1 = ClientState { steps: c.steps.update(0, Step::Probe((i + 1) as u32)), ..c };
        assert(failures(j)[0] == Outcome::Failed);
        assert(step(c, Outcome::Failed) == (
            c1,
            Request::Connect(socket_path(c.base, (i + 1) as nat)),
        ));
        assert(failures(j).drop_first() =~= failures((j - 1) as nat));
        lemma_probe_failures(c1, i + 1, (j - 1) as nat);
        assert(c1.steps.update(0, Step::Probe((i + 1 + (j - 1)) as u32)) =~= c.steps.update(
            0,
            Step::Probe((i + j) as u32),
        ));
        assert(run(c, failures(j)).1 =~= Seq::new(
            j,
            |t: int| Request::Connect(socket_path(c.base, (i + t + 1) as nat)),
        ));
    }
}

/// Once the directory is found, the sockets are tried in ascending order from
/// number 0, and trying stops at the first one that accepts: with `k`
/// refusals first, the client asks for sockets 0 to `k`, then goes on with
/// the rest of its operation on the open stream.
pub proof fn lemma_probe_order(c: ClientState, values: Seq<Option<Seq<char>>>, k: nat)
    requires
        c.steps.len() > 0,
        c.steps[0] == Step::Resolve,
        first_base_dir(values) is Some,
        k < SOCKET_COUNT,
    ensures
        ({
            let base = first_base_dir(values)->0;
            let outs = seq![Outcome::BaseDirValues(values)] + failures(k) + seq![Outcome::Succeeded];
            let next = dispatch(
                ClientState { connected: true, base: base, steps: c.steps.drop_first(), ..c },
            );
            &&& run(c, outs).1.len() == k + 2
            &&& forall|i: int|
                0 <= i <= k ==> run(c, outs).1[i] == Request::Connect(socket_path(base, i as nat))
            &&& run(c, outs).1[k as int + 1] == next.1
            &&& run(c, outs).0 == next.0
        }),
{
    reveal(step);
    let base = first_base_dir(values)->0;
    let c1 = ClientState { base: base, steps: c.steps.update(0, Step::Probe(0)), ..c };
    let a = seq![Outcome::BaseDirValues(values)];
    let f = failures(k);
    let s = seq![Outcome::Succeeded];
    lemma_run_one(c, Outcome::BaseDirValues(values));
    lemma_probe_failures(c1, 0, k);
    let ck = ClientState { steps: c1.steps.update(0, Step::Probe(k as u32)), ..c1 };
    lemma_run_one(ck, Outcome::Succeeded);
    lemma_run_concat(c, a, f);
    lemma_run_concat(c, a + f, s);
    assert(ck.steps.drop_first() =~= c.steps.drop_first());
    let next = dispatch(
        ClientState { connected: true, base: base, steps: c.steps.drop_first(), ..c },
    );
    assert(ClientState { connected: true, ..pop(ck) } == ClientState {
        connected: true,
        base: base,
        steps: c.steps.drop_first(),
        ..c
    });
    let reqs = run(c, a + f + s).1;
    assert(reqs =~= seq![Request::Connect(socket_path(base, 0))] + Seq::new(
        k,
        |t: int| Request::Connect(socket_path(base, (t + 1) as nat)),
    ) + seq![next.1]);
}

/// When no socket accepts, the client gives up with `CouldNotConnect` after
/// exactly ten attempts, on sockets 0 to 9 in order.
pub proof fn lemma_probe_exhausted(c: ClientState, values: Seq<Option<Seq<char>>>)
    requires
        c.steps.len() > 0,
        c.steps[0] == Step::Resolve,
        first_base_dir(values) is Some,
    ensures
        ({
            let base = first_base_dir(values)->0;
            let outs = seq![Outcome::BaseDirValues(values)] + failures(SOCKET_COUNT as nat);
            &&& run(c, outs).1 == Seq::new(
                SOCKET_COUNT as nat,
                |i: int| Request::Connect(socket_path(base, i as nat)),
            ).push(Request::Finished(Err(RichPresenceError::CouldNotConnect)))
            &&& run(c, outs).0.steps.len() == 0
            &&& !run(c, outs).0.connected
        }),
{
    reveal(step);
    let base = first_base_dir(values)->0;
    let c1 = ClientState { base: base, steps: c.steps.update(0, Step::Probe(0)), ..c };
    let a = seq![Outcome::BaseDirValues(values)];
    let n = (SOCKET_COUNT - 1) as nat;
    let f = failures(n);
    let last = seq![Outcome::Failed];
    lemma_run_one(c, Outcome::BaseDirValues(values));
    lemma_probe_failures(c1, 0, n);
    let c9 = ClientState { steps: c1.steps.update(0, Step::Probe(n as u32)), ..c1 };
    lemma_run_one(c9, Outcome::Failed);
    lemma_run_concat(c, a, f);
    lemma_run_concat(c, a + f, last);
    assert(failures(SOCKET_COUNT as nat) =~= f + last);
    assert(a + failures(SOCKET_COUNT as nat) =~= a + f + last);
    assert(run(c, a + f + last).1 =~= Seq::new(
        SOCKET_COUNT as nat,
        |i: int| Request::Connect(socket_path(base, i as nat)),
    ).push(Request::Finished(Err(RichPresenceError::CouldNotConnect))));
}

/// When none of the variables names a directory, establishing fails with
/// `CouldNotConnect` at once, before any socket is tried.
pub proof fn lemma_no_base_dir(c: ClientState, values: Seq<Option<Seq<char>>>)
    requires
        c.steps.len() > 0,
        c.steps[0] == Step::Resolve,
        first_base_dir(values) is None,
    ensures
        step(c, Outcome::BaseDirValues(values)).1 == Request::Finished(
            Err(RichPresenceError::CouldNotConnect),
        ),
        step(c, Outcome::BaseDirValues(values)).0.steps.len() == 0,
{
    reveal(step);
}

proof fn lemma_run_cons(c: ClientState, o: Outcome, rest: Seq<Outcome>)
    ensures
        run(c, seq![o] + rest) == (
            run(step(c, o).0, rest).0,
            seq![step(c, o).1] + run(step(c, o).0, rest).1,
        ),
{
    lemma_run_one(c, o);
    lemma_run_concat(c, seq![o], rest);
}


/// The outcomes of a failure followed by a reconnect that goes through: the
/// directory is found, socket 0 accepts, the handshake is written, and the
/// reply `reply_header`, `reply` is read.
pub open spec fn reconnect_outcomes(
    values: Seq<Option<Seq<char>>>,
    reply_header: Seq<u8>,
    reply: Seq<u8>,
) -> Seq<Outcome> {
    seq![
        Outcome::Failed,
        Outcome::BaseDirValues(values),
        Outcome::Succeeded,
        Outcome::Succeeded,
        Outcome::Succeeded,
        Outcome::Received(reply_header),
        Outcome::Received(reply),
    ]
}

/// The state in which the failed step `c.steps[0]` is tried once more, after
/// a reconnect to the socket 0 under `base` whose reply was `reply_header`, `reply`.
pub open spec fn after_reconnect(
    c: ClientState,
    base: Seq<char>,
    reply_header: Seq<u8>,
    reply: Seq<u8>,
) -> ClientState {
    ClientState {
        connected: true,
        base: base,
        frame: Some((le_value(reply_header.subrange(0, 4)), decode_utf8(reply))),
        steps: seq![without_retry(c.steps[0])] + c.steps.drop_first(),
        ..c
    }
}

/// The requests of a reconnect to socket 0 under `base`, whose reply has `n` bytes.
pub open spec fn reconnect_requests(c: ClientState, base: Seq<char>, n: nat) -> Seq<Request> {
    seq![
        Request::LookUpBaseDir,
        Request::Connect(socket_path(base, 0)),
        Request::Write(write_bytes(c, FrameKind::Handshake, Part::Header)),
        Request::Write(write_bytes(c, FrameKind::Handshake, Part::Body)),
        Request::Read(8),
        Request::Read(n),
    ]
}

proof fn lemma_reconnect_start(c: ClientState, values: Seq<Option<Seq<char>>>)
    requires
        c.steps.len() > 0,
        retries(c.steps[0]),
        first_base_dir(values) is Some,
    ensures
        ({
            let base = first_base_dir(values)->0;
            let c1 = step(c, Outcome::Failed).0;
            let c2 = step(c1, Outcome::BaseDirValues(values)).0;
            &&& step(c, Outcome::Failed).1 == Request::LookUpBaseDir
            &&& step(c1, Outcome::BaseDirValues(values)).1 == Request::Connect(socket_path(base, 0))
            &&& c2 == ClientState {
                connected: false,
                base: base,
                steps: seq![
                    Step::Probe(0),
                    Step::Write(FrameKind::Handshake, Part::Header, false),
                    Step::Write(FrameKind::Handshake, Part::Body, false),
                    Step::ReadHeader(false),
                ] + (seq![without_retry(c.steps[0])] + c.steps.drop_first()),
                ..c
            }
        }),
{
    reveal(step);
    let tail = seq![without_retry(c.steps[0])] + c.steps.drop_first();
    let c1 = step(c, Outcome::Failed).0;
    assert(c1.steps =~= seq![
        Step::Resolve,
        Step::Write(FrameKind::Handshake, Part::Header, false),
        Step::Write(FrameKind::Handshake, Part::Body, false),
        Step::ReadHeader(false),
    ] + tail);
    let c2 = step(c1, Outcome::BaseDirValues(values)).0;
    assert(c2.steps =~= seq![
        Step::Probe(0),
        Step::Write(FrameKind::Handshake, Part::Header, false),
        Step::Write(FrameKind::Handshake, Part::Body, false),
        Step::ReadHeader(false),
    ] + tail);
}

proof fn lemma_reconnect_handshake(c2: ClientState, tail: Seq<Step>)
    requires
        c2.steps == seq![
            Step::Probe(0),
            Step::Write(FrameKind::Handshake, Part::Header, false),
            Step::Write(FrameKind::Handshake, Part::Body, false),
            Step::ReadHeader(false),
        ] + tail,
    ensures
        ({
            let c3 = step(c2, Outcome::Succeeded).0;
            let c4 = step(c3, Outcome::Succeeded).0;
            let c5 = step(c4, Outcome::Succeeded).0;
            &&& step(c2, Outcome::Succeeded).1 == Request::Write(
                write_bytes(c2, FrameKind::Handshake, Part::Header),
            )
            &&& step(c3, Outcome::Succeeded).1 == Request::Write(
                write_bytes(c2, FrameKind::Handshake, Part::Body),
            )
            &&& step(c4, Outcome::Succeeded).1 == Request::Read(8)
            &&& c5 == ClientState {
                connected: true,
                steps: seq![Step::ReadHeader(false)] + tail,
                ..c2
            }
        }),
{
    reveal(step);
    let c3 = step(c2, Outcome::Succeeded).0;
    assert(c3.steps =~= seq![
        Step::Write(FrameKind::Handshake, Part::Header, false),
        Step::Write(FrameKind::Handshake, Part::Body, false),
        Step::ReadHeader(false),
    ] + tail);
    let c4 = step(c3, Outcome::Succeeded).0;
    assert(c4.steps =~= seq![
        Step::Write(FrameKind::Handshake, Part::Body, false),
        Step::ReadHeader(false),
    ] + tail);
    let c5 = step(c4, Outcome::Succeeded).0;
    assert(c5.steps =~= seq![Step::ReadHeader(false)] + tail);
}

/// Reading a frame: a header read whose bytes announce `n` bytes is followed
/// by a read of exactly `n` bytes; a body that is UTF-8 JSON then becomes the
/// client's last frame, with the header's tag, and the operation goes on.
pub proof fn lemma_read_frame(c: ClientState, retry: bool, header: Seq<u8>, body: Seq<u8>)
    requires
        c.connected,
        c.steps.len() > 0,
        c.steps[0] == Step::ReadHeader(retry),
        decode_frame_spec(header, body) is Ok,
    ensures
        ({
            let c6 = step(c, Outcome::Received(header)).0;
            let (tag, text) = decode_frame_spec(header, body)->Ok_0;
            &&& step(c, Outcome::Received(header)).1 == Request::Read(body.len())
            &&& step(c6, Outcome::Received(body)) == dispatch(
                ClientState { frame: Some((tag, text)), steps: c.steps.drop_first(), ..c },
            )
        }),
{
    reveal(step);
    let n = le_value(header.subrange(4, 8));
    let c6 = step(c, Outcome::Received(header)).0;
    assert(c6.steps == c.steps.update(0, Step::ReadBody(le_value(header.subrange(0, 4)), n, retry)));
    assert(pop(c6).steps =~= c.steps.drop_first());
}

/// A read or write that fails while its retry is left is answered by one
/// reconnect (find the directory, open socket 0, send the handshake, read the
/// reply), after which the same step is tried again with no retry left.
pub proof fn lemma_reconnect(
    c: ClientState,
    values: Seq<Option<Seq<char>>>,
    reply_header: Seq<u8>,
    reply: Seq<u8>,
)
    requires
        c.steps.len() > 0,
        retries(c.steps[0]),
        first_base_dir(values) is Some,
        decode_frame_spec(reply_header, reply) is Ok,
    ensures
        ({
            let base = first_base_dir(values)->0;
            let after = dispatch(after_reconnect(c, base, reply_header, reply));
            let r = run(c, reconnect_outcomes(values, reply_header, reply));
            &&& r.0 == after.0
            &&& r.1 == reconnect_requests(c, base, reply.len()).push(after.1)
        }),
{
    let base = first_base_dir(values)->0;
    let tail = seq![without_retry(c.steps[0])] + c.steps.drop_first();
    lemma_reconnect_start(c, values);
    let (c1, r1) = step(c, Outcome::Failed);
    let (c2, r2) = step(c1, Outcome::BaseDirValues(values));
    lemma_reconnect_handshake(c2, tail);
    let (c3, r3) = step(c2, Outcome::Succeeded);
    let (c4, r4) = step(c3, Outcome::Succeeded);
    let (c5, r5) = step(c4, Outcome::Succeeded);
    assert((seq![Step::ReadHeader(false)] + tail)[0] == Step::ReadHeader(false));
    lemma_read_frame(c5, false, reply_header, reply);
    let (c6, r6) = step(c5, Outcome::Received(reply_header));
    let (c7, r7) = step(c6, Outcome::Received(reply));
    assert((seq![Step::ReadHeader(false)] + tail).drop_first() =~= tail);
    assert(ClientState {
        frame: Some(decode_frame_spec(reply_header, reply)->Ok_0),
        steps: tail,
        ..c5
    } == after_reconnect(c, base, reply_header, reply));

    let o = reconnect_outcomes(values, reply_header, reply);
    let e = Seq::<Outcome>::empty();
    let s6 = seq![o[6]] + e;
    let s5 = seq![o[5]] + s6;
    let s4 = seq![o[4]] + s5;
    let s3 = seq![o[3]] + s4;
    let s2 = seq![o[2]] + s3;
    let s1 = seq![o[1]] + s2;
    let s0 = seq![o[0]] + s1;
    lemma_run_cons(c6, o[6], e);
    lemma_run_cons(c5, o[5], s6);
    lemma_run_cons(c4, o[4], s5);
    lemma_run_cons(c3, o[3], s4);
    lemma_run_cons(c2, o[2], s3);
    lemma_run_cons(c1, o[1], s2);
    lemma_run_cons(c, o[0], s1);
    assert(o =~= s0);
    assert(run(c7, e) == (c7, Seq::<Request>::empty()));
    assert(run(c6, s6).1 =~= seq![r7]);
    assert(run(c5, s5).1 =~= seq![r6, r7]);
    assert(run(c4, s4).1 =~= seq![r5, r6, r7]);
    assert(run(c3, s3).1 =~= seq![r4, r5, r6, r7]);
    assert(run(c2, s2).1 =~= seq![r3, r4, r5, r6, r7]);
    assert(run(c1, s1).1 =~= seq![r2, r3, r4, r5, r6, r7]);
    assert(run(c, o).1 =~= reconnect_requests(c, base, reply.len()).push(r7));
}

/// A write that fails while its retry is left is answered by exactly one
/// reconnect and one more try of the same write. When that try goes through,
/// the operation goes on with its remaining steps; when it fails again, the
/// operation ends with `WriteSocketFailed`, with no second reconnect.
pub proof fn lemma_retry_once(
    c: ClientState,
    kind: FrameKind,
    part: Part,
    rest: Seq<Step>,
    values: Seq<Option<Seq<char>>>,
    reply_header: Seq<u8>,
    reply: Seq<u8>,
    second: Outcome,
)
    requires
        c.steps == seq![Step::Write(kind, part, true)] + rest,
        first_base_dir(values) is Some,
        decode_frame_spec(reply_header, reply) is Ok,
        second is Succeeded || second is Failed,
    ensures
        ({
            let base = first_base_dir(values)->0;
            let outs = reconnect_outcomes(values, reply_header, reply).push(second);
            let reqs = run(c, outs).1;
            let rest_state = ClientState { steps: rest, ..after_reconnect(c, base, reply_header, reply) };
            &&& reqs.len() == 8
            &&& reqs.subrange(0, 7) == reconnect_requests(c, base, reply.len()).push(
                Request::Write(write_bytes(c, kind, part)),
            )
            &&& reconnects(reqs.subrange(0, 7)) == 1
            &&& second is Succeeded ==> reqs[7] == dispatch(rest_state).1
            &&& second is Failed ==> reqs[7] == Request::Finished(
                Err(RichPresenceError::WriteSocketFailed),
            )
            &&& second is Failed ==> reconnects(reqs) == 1
        }),
{
    reveal(step);
    let base = first_base_dir(values)->0;
    let o = reconnect_outcomes(values, reply_header, reply);
    lemma_reconnect(c, values, reply_header, reply);
    let a = after_reconnect(c, base, reply_header, reply);
    assert(a.steps[0] == Step::Write(kind, part, false));
    let (c7, r7) = dispatch(a);
    assert(c7 == a);
    assert(r7 == Request::Write(write_bytes(c, kind, part)));
    lemma_run_concat(c, o, seq![second]);
    lemma_run_one(c7, second);
    assert(o + seq![second] =~= o.push(second));
    assert(pop(a) == ClientState { steps: rest, ..a }) by {
        assert(a.steps.drop_first() =~= rest);
    }
    let reqs = run(c, o.push(second)).1;
    assert(reqs.subrange(0, 7) =~= reconnect_requests(c, base, reply.len()).push(r7));
    assert(reconnects(reqs.subrange(0, 7)) == 1) by {
        reveal_with_fuel(reconnects, 8);
    }
    if second is Failed {
        assert(reconnects(reqs) == 1) by {
            reveal_with_fuel(reconnects, 9);
        }
    }
}

/// A header read that fails while its retry is left is answered by exactly
/// one reconnect and one more read of a header. When that read fails again,
/// the operation ends with `ReadSocketFailed`, with no second reconnect; when
/// it gives eight bytes, exactly the body they announce is read next.
pub proof fn lemma_read_retry_once(
    c: ClientState,
    rest: Seq<Step>,
    values: Seq<Option<Seq<char>>>,
    reply_header: Seq<u8>,
    reply: Seq<u8>,
    second: Outcome,
)
    requires
        c.steps == seq![Step::ReadHeader(true)] + rest,
        first_base_dir(values) is Some,
        decode_frame_spec(reply_header, reply) is Ok,
        second is Failed || (second matches Outcome::Received(h) && h.len() == 8),
    ensures
        ({
            let base = first_base_dir(values)->0;
            let outs = reconnect_outcomes(values, reply_header, reply).push(second);
            let reqs = run(c, outs).1;
            &&& reqs.len() == 8
            &&& reqs.subrange(0, 7) == reconnect_requests(c, base, reply.len()).push(Request::Read(8))
            &&& reconnects(reqs) == 1
            &&& second is Failed ==> reqs[7] == Request::Finished(
                Err(RichPresenceError::ReadSocketFailed),
            )
            &&& second matches Outcome::Received(h) ==> reqs[7] == Request::Read(
                le_value(h.subrange(4, 8)) as nat,
            )
        }),
{
    reveal(step);
    let base = first_base_dir(values)->0;
    let o = reconnect_outcomes(values, reply_header, reply);
    lemma_reconnect(c, values, reply_header, reply);
    let a = after_reconnect(c, base, reply_header, reply);
    assert(a.steps[0] == Step::ReadHeader(false));
    let (c7, r7) = dispatch(a);
    assert(c7 == a);
    lemma_run_concat(c, o, seq![second]);
    lemma_run_one(c7, second);
    assert(o + seq![second] =~= o.push(second));
    let reqs = run(c, o.push(second)).1;
    assert(reqs.subrange(0, 7) =~= reconnect_requests(c, base, reply.len()).push(r7));
    assert(reconnects(reqs) == 1) by {
        reveal_with_fuel(reconnects, 9);
    }
}

/// Reading one frame on an open stream: the client asks for the 8-byte
/// header, then for exactly the number of body bytes it announces, and ends
/// holding the frame's tag and JSON text as its last frame.
pub proof fn lemma_recv(c: ClientState, header: Seq<u8>, body: Seq<u8>)
    requires
        c.connected,
        decode_frame_spec(header, body) is Ok,
    ensures
        ({
            let start = ClientState { frame: None, steps: seq![Step::ReadHeader(true)], ..c };
            let r = run(start, seq![Outcome::Received(header), Outcome::Received(body)]);
            &&& dispatch(start) == (start, Request::Read(8))
            &&& r.1 == seq![Request::Read(body.len()), Request::Finished(Ok(()))]
            &&& r.0.frame == Some(decode_frame_spec(header, body)->Ok_0)
            &&& r.0.steps.len() == 0
        }),
{
    let start = ClientState { frame: None, steps: seq![Step::ReadHeader(true)], ..c };
    lemma_read_frame(start, true, header, body);
    let (c6, r6) = step(start, Outcome::Received(header));
    let fin = ClientState {
        frame: Some(decode_frame_spec(header, body)->Ok_0),
        steps: start.steps.drop_first(),
        ..start
    };
    assert(start.steps.drop_first() =~= Seq::<Step>::empty());
    let (c7, r7) = step(c6, Outcome::Received(body));
    lemma_run_one(c6, Outcome::Received(body));
    lemma_run_cons(start, Outcome::Received(header), seq![Outcome::Received(body)]);
    assert(seq![Outcome::Received(header), Outcome::Received(body)] =~= seq![
        Outcome::Received(header),
    ] + seq![Outcome::Received(body)]);
    assert(run(start, seq![Outcome::Received(header), Outcome::Received(body)]).1 =~= seq![
        r6,
        r7,
    ]);
}

/// Whether a failure of the step may still be answered by a reconnect.
pub open spec fn retries(s: Step) -> bool {
    match s {
        Step::Write(_, _, r) => r,
        Step::ReadHeader(r) => r,
        Step::ReadBody(_, _, r) => r,
        _ => false,
    }
}

/// A failed read or write that may be retried is replaced by a reconnect and
/// one more try of it, none of which may be retried in turn: a failure among
/// them ends the operation, so one failure costs at most one reconnect.
pub proof fn lemma_reconnect_not_retried(c: ClientState, e: RichPresenceError)
    requires
        c.steps.len() > 0,
    ensures
        fail(c, e, true).1 == Request::LookUpBaseDir,
        fail(c, e, true).0.steps.len() == c.steps.len() + 4,
        forall|i: int| 0 <= i < 5 ==> !retries(#[trigger] fail(c, e, true).0.steps[i]),
        fail(c, e, true).0.steps.subrange(5, c.steps.len() as int + 4) == c.steps.drop_first(),
        fail(c, e, false) == (
            ClientState { connected: false, steps: seq![], ..c },
            Request::Finished(Err(e)),
        ),
{
    let steps = fail(c, e, true).0.steps;
    assert(steps == reconnect_steps() + seq![without_retry(c.steps[0])] + c.steps.drop_first());
    assert(steps.subrange(5, c.steps.len() as int + 4) =~= c.steps.drop_first());
}

} // verus!
