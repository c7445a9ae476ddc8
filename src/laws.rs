//! What holds of every session, proved over the session's step function.

use vstd::prelude::*;
use crate::auth::{auth_prefix, authorized, base64_decoding, credentials_match};
use crate::connect::connect_target;
use crate::request::{first_line, first_with_prefix, is_complete, lines_of};
use crate::session::{closed, initial, session_wf, step, Action, EventView, Phase, Response, SessionView};

verus! {

/// The actions and final state of session `s` after `events`, in order.
pub open spec fn run(s: SessionView, user: Seq<u8>, pass: Seq<u8>, events: Seq<EventView>) -> (SessionView, Seq<Action>)
    decreases events.len(),
{
    if events.len() == 0 {
        (s, seq![])
    } else {
        let (next, a) = step(s, user, pass, events[0]);
        let (last, rest) = run(next, user, pass, events.drop_first());
        (last, seq![a] + rest)
    }
}

/// A complete, authorized request whose line names `host:port` makes the
/// session dial that target; once connected it answers `200 Connection
/// Established` and starts relaying.
pub proof fn lemma_authorized_connect_is_established(
    s: SessionView,
    user: Seq<u8>,
    pass: Seq<u8>,
    chunk: Seq<u8>,
    host: Seq<u8>,
    port: Seq<u8>,
)
    requires
        s.phase == Phase::AwaitingRequest,
        chunk.len() > 0,
        is_complete(s.request + chunk),
        authorized(s.request + chunk, user, pass),
        connect_target(first_line(s.request + chunk)) == Some((host, port)),
    ensures
        ({
            let (dialing, a) = step(s, user, pass, EventView::Received(chunk));
            let (tunneling, b) = step(dialing, user, pass, EventView::Connected);
            &&& a == Action::Dial
            &&& dialing.phase == Phase::Dialing
            &&& dialing.target == Some((host, port))
            &&& b == Action::Establish
            &&& tunneling.phase == Phase::Tunneling
            &&& tunneling.target == Some((host, port))
        }),
{
}

/// A complete request with a well-formed CONNECT line but without a
/// credentials line, or whose credentials do not decode as base64, or decode
/// to another username or password, is answered `407` and the session ends.
pub proof fn lemma_unauthorized_is_refused(s: SessionView, user: Seq<u8>, pass: Seq<u8>, chunk: Seq<u8>)
    requires
        s.phase == Phase::AwaitingRequest,
        chunk.len() > 0,
        is_complete(s.request + chunk),
        connect_target(first_line(s.request + chunk)) is Some,
        ({
            let found = first_with_prefix(lines_of(s.request + chunk), auth_prefix());
            ||| found.is_none()
            ||| base64_decoding(found->0.skip(auth_prefix().len() as int)).is_none()
            ||| !credentials_match(base64_decoding(found->0.skip(auth_prefix().len() as int))->0, user, pass)
        }),
    ensures
        step(s, user, pass, EventView::Received(chunk)) == (closed(), Action::Reply(Response::AuthRequired)),
{
}

/// A complete request whose line is not `CONNECT <host>:<port> <version>`
/// is answered `400` and the session ends, whatever its credentials.
pub proof fn lemma_malformed_line_is_bad_request(s: SessionView, user: Seq<u8>, pass: Seq<u8>, chunk: Seq<u8>)
    requires
        s.phase == Phase::AwaitingRequest,
        chunk.len() > 0,
        is_complete(s.request + chunk),
        connect_target(first_line(s.request + chunk)).is_none(),
    ensures
        step(s, user, pass, EventView::Received(chunk)) == (closed(), Action::Reply(Response::BadRequest)),
{
}

/// A target that cannot be reached is answered `502` and the session ends.
pub proof fn lemma_unreachable_is_bad_gateway(s: SessionView, user: Seq<u8>, pass: Seq<u8>)
    requires
        s.phase == Phase::Dialing,
    ensures
        step(s, user, pass, EventView::ConnectFailed) == (closed(), Action::Reply(Response::BadGateway)),
{
}

/// Each chunk of request bytes as the event that delivers it.
pub open spec fn received_all(chunks: Seq<Seq<u8>>) -> Seq<EventView> {
    chunks.map_values(|c: Seq<u8>| EventView::Received(c))
}

/// How a request is split across reads does not change the reply: fed in
/// non-empty chunks of which no earlier run completes the request, a
/// session awaiting its request asks to read on after each chunk but the
/// last, and after the last acts and ends as if all had come at once.
pub proof fn lemma_chunking_is_invisible(s: SessionView, user: Seq<u8>, pass: Seq<u8>, chunks: Seq<Seq<u8>>)
    requires
        s.phase == Phase::AwaitingRequest,
        chunks.len() > 0,
        forall|i: int| 0 <= i < chunks.len() ==> #[trigger] chunks[i].len() > 0,
        forall|k: int| 0 < k < chunks.len() ==> !is_complete(s.request + #[trigger] chunks.take(k).flatten()),
    ensures
        run(s, user, pass, received_all(chunks)).1.len() == chunks.len(),
        forall|i: int| 0 <= i < chunks.len() - 1 ==> #[trigger] run(s, user, pass, received_all(chunks)).1[i]
            == Action::ReadMore,
        (run(s, user, pass, received_all(chunks)).0, run(s, user, pass, received_all(chunks)).1.last())
            == step(s, user, pass, EventView::Received(chunks.flatten())),
    decreases chunks.len(),
{
    let c0 = chunks[0];
    let evs = received_all(chunks);
    let rest = chunks.drop_first();
    assert(evs[0] == EventView::Received(c0));
    assert(evs.drop_first() =~= received_all(rest));
    assert(chunks.flatten() == c0 + rest.flatten());
    if chunks.len() == 1 {
        assert(rest.flatten() =~= Seq::<u8>::empty());
        assert(chunks.flatten() =~= c0);
        assert(c0.len() > 0);
        let (next, a) = step(s, user, pass, EventView::Received(c0));
        assert(received_all(rest).len() == 0);
        assert(run(next, user, pass, received_all(rest)) == (next, Seq::<Action>::empty()));
        assert(run(s, user, pass, evs).1 =~= seq![a]);
    } else {
        assert(chunks.take(1).drop_first().flatten() =~= Seq::<u8>::empty());
        assert(chunks.take(1).flatten() =~= c0);
        assert(!is_complete(s.request + chunks.take(1).flatten()));
        assert(chunks[0].len() > 0);
        let s1 = SessionView { request: s.request + c0, ..s };
        assert(step(s, user, pass, EventView::Received(c0)) == (s1, Action::ReadMore));
        assert forall|i: int| 0 <= i < rest.len() implies #[trigger] rest[i].len() > 0 by {
            assert(rest[i] == chunks[i + 1]);
        }
        assert forall|k: int| 0 < k < rest.len() implies !is_complete(s1.request + #[trigger] rest.take(k).flatten()) by {
            assert(chunks.take(k + 1).drop_first() =~= rest.take(k));
            assert(chunks.take(k + 1)[0] == c0);
            assert(chunks.take(k + 1).flatten() == c0 + rest.take(k).flatten());
            assert(s1.request + rest.take(k).flatten() =~= s.request + chunks.take(k + 1).flatten());
        }
        lemma_chunking_is_invisible(s1, user, pass, rest);
        let tail = run(s1, user, pass, received_all(rest)).1;
        let all = run(s, user, pass, evs).1;
        assert(run(s, user, pass, evs).0 == run(s1, user, pass, received_all(rest)).0);
        assert(all == seq![Action::ReadMore] + tail);
        assert(all.last() == tail.last());
        assert forall|i: int| 0 <= i < chunks.len() - 1 implies #[trigger] run(s, user, pass, received_all(chunks)).1[i]
            == Action::ReadMore by {
            if i > 0 {
                assert(all[i] == tail[i - 1]);
            }
        }
        assert(s1.request + rest.flatten() =~= s.request + chunks.flatten());
    }
}

/// Every step keeps a session well formed, starting from a fresh one.
pub proof fn lemma_step_keeps_wf(s: SessionView, user: Seq<u8>, pass: Seq<u8>, e: EventView)
    requires
        session_wf(s),
    ensures
        session_wf(initial()),
        session_wf(step(s, user, pass, e).0),
{
}

/// A closed session stays closed and does nothing but close.
pub proof fn lemma_closed_is_final(user: Seq<u8>, pass: Seq<u8>, events: Seq<EventView>)
    ensures
        run(closed(), user, pass, events).0 == closed(),
        run(closed(), user, pass, events).1.len() == events.len(),
        forall|i: int|
            0 <= i < events.len() ==> #[trigger] run(closed(), user, pass, events).1[i] == Action::Close,
    decreases events.len(),
{
    if events.len() > 0 {
        lemma_closed_is_final(user, pass, events.drop_first());
        let rest = run(closed(), user, pass, events.drop_first()).1;
        let all = run(closed(), user, pass, events).1;
        assert(all == seq![Action::Close] + rest);
        assert forall|i: int| 0 <= i < events.len() implies #[trigger] run(closed(), user, pass, events).1[i]
            == Action::Close by {
            if i > 0 {
                assert(run(closed(), user, pass, events).1[i] == rest[i - 1]);
            }
        }
    }
}

} // verus!
