//! What holds of every session, proved from the model.

use crate::command::codec::StreamError;
use crate::command::model::{
    after_requests, frames_from, routable, wire, Outcome, SessionView,
};
use crate::command::pending::PendingView;
use crate::command::BsonCommand;
use crate::frame::laws::{lemma_command_round_trip, lemma_scan_is_stable};
use crate::frame::{decode_command, encode_command, scan_of, CommandView, Scan};
use bson::Document;
use vstd::prelude::*;

verus! {

/// Every step keeps the invariant, so it holds after any number of steps in
/// any order: ids of waiting requests were given out before, an answer is
/// stored under its own id, and no frame with a status other than 0 is
/// stored anywhere.
pub proof fn lemma_every_step_keeps_the_invariant(
    session: SessionView,
    command: BsonCommand<Document>,
    id: i32,
    error: StreamError,
    more: Seq<u8>,
)
    requires
        session.wf(),
    ensures
        SessionView::fresh().wf(),
        session.next_id < i32::MAX ==> session.request(command).wf(),
        session.pump().0.wf(),
        session.respond(id).0.wf(),
        session.next_broadcast().0.wf(),
        session.cancel(id).wf(),
        session.fail(error).wf(),
        session.fed(more).wf(),
{
    lemma_respond_keeps_the_rest(session, id);
    lemma_next_broadcast_keeps_the_answers(session);
    if let Scan::Whole(whole) = scan_of(session.inbound) {
        let frame = decode_command(session.inbound);
        if frame.header.status == 0 {
            lemma_route_delivers_once(
                SessionView { inbound: session.inbound.skip(whole as int), ..session },
                frame,
            );
        }
    }
}

/// Ids never go back: a request gets the counter's value and moves the
/// counter on by one, no other step moves it, and it never passes
/// `i32::MAX`. So an id given out is greater than every id given out before,
/// and none is given twice.
pub proof fn lemma_ids_never_go_back(
    session: SessionView,
    command: BsonCommand<Document>,
    id: i32,
    error: StreamError,
    more: Seq<u8>,
)
    requires
        session.wf(),
    ensures
        session.next_id < i32::MAX ==> session.request(command).next_id == session.next_id + 1,
        session.next_id < i32::MAX ==> !session.awaits(session.next_id) && session.request(
            command,
        ).awaits(session.next_id),
        session.pump().0.next_id == session.next_id,
        session.respond(id).0.next_id == session.next_id,
        session.next_broadcast().0.next_id == session.next_id,
        session.cancel(id).next_id == session.next_id,
        session.fail(error).next_id == session.next_id,
        session.fed(more).next_id == session.next_id,
{
    lemma_respond_keeps_the_rest(session, id);
    lemma_next_broadcast_keeps_the_answers(session);
}

/// What a run of requests does to a session: the counter moves on by
/// their number, each of them waits under its own id, their frames stand
/// behind what was to be sent before, in their order, and nothing else
/// changes.
pub proof fn lemma_after_requests(start: SessionView, commands: Seq<BsonCommand<Document>>)
    requires
        start.wf(),
        start.next_id + commands.len() <= i32::MAX,
    ensures
        after_requests(start, commands).wf(),
        after_requests(start, commands).next_id == start.next_id + commands.len(),
        after_requests(start, commands).outbound == start.outbound + frames_from(
            start.next_id as int,
            commands,
        ),
        after_requests(start, commands).broadcasts == start.broadcasts,
        after_requests(start, commands).inbound == start.inbound,
        after_requests(start, commands).closed == start.closed,
        forall|id: i32|
            #[trigger] after_requests(start, commands).awaits(id) <==> start.awaits(id) || (
            start.next_id <= id < start.next_id + commands.len()),
    decreases commands.len(),
{
    if commands.len() > 0 {
        let earlier = after_requests(start, commands.drop_last());
        let all = after_requests(start, commands);
        lemma_after_requests(start, commands.drop_last());
        assert(all == earlier.request(commands.last()));
        assert(all.next_id == earlier.next_id + 1);
        assert(all.pending == earlier.pending.insert(earlier.next_id, PendingView::Awaited));
        assert forall|id: i32| #[trigger] all.awaits(id) <==> start.awaits(id) || (start.next_id
            <= id < start.next_id + commands.len()) by {
            if id != earlier.next_id {
                assert(all.awaits(id) == earlier.awaits(id));
            }
        }
        assert(all.outbound =~= start.outbound + frames_from(start.next_id as int, commands));
    } else {
        assert(start.outbound + frames_from(start.next_id as int, commands) =~= start.outbound);
    }
}

/// Ids count up from 0: on a session that has done nothing yet, requests
/// get the ids 0, 1, 2 and so on in the order in which they are made: the
/// request made after `i` others gets the id `i`. Afterwards exactly these
/// ids wait for an answer, and the frames of the requests stand on the wire
/// in the order of their ids.
pub proof fn lemma_request_ids_count_up(commands: Seq<BsonCommand<Document>>, i: int)
    requires
        commands.len() <= i32::MAX,
        0 <= i < commands.len(),
    ensures
        after_requests(SessionView::fresh(), commands.take(i)).next_id == i,
        after_requests(SessionView::fresh(), commands).awaits(i as i32),
        after_requests(SessionView::fresh(), commands).next_id == commands.len(),
        after_requests(SessionView::fresh(), commands).outbound == frames_from(0, commands),
{
    lemma_after_requests(SessionView::fresh(), commands.take(i));
    lemma_after_requests(SessionView::fresh(), commands);
    assert(after_requests(SessionView::fresh(), commands).awaits(i as i32));
    assert(Seq::<u8>::empty() + frames_from(0, commands) =~= frames_from(0, commands));
}

/// A frame goes to exactly one place. Routed to a session where the request
/// with its id waits without an answer, it becomes that request's answer
/// and the broadcast queue stays as it is. Anywhere else it becomes the
/// newest broadcast and the table of requests stays as it is. Nothing that
/// was stored before moves or is lost.
pub proof fn lemma_route_delivers_once(session: SessionView, frame: CommandView)
    requires
        session.wf(),
        frame.header.status == 0,
    ensures
        session.route(frame).wf(),
        session.awaits(frame.header.id) ==> {
            &&& session.route(frame).pending[frame.header.id] == PendingView::Delivered(frame)
            &&& session.route(frame).broadcasts == session.broadcasts
        },
        !session.awaits(frame.header.id) ==> {
            &&& session.route(frame).pending == session.pending
            &&& session.route(frame).broadcasts == session.broadcasts.push(frame)
        },
        session.route(frame).pending.dom() == session.pending.dom(),
        forall|id: i32|
            id != frame.header.id && session.pending.dom().contains(id) ==> #[trigger]
            session.route(frame).pending[id] == session.pending[id],
        forall|i: int|
            0 <= i < session.broadcasts.len() ==> #[trigger] session.route(frame).broadcasts[i]
                == session.broadcasts[i],
{
    if session.awaits(frame.header.id) {
        assert(session.route(frame).pending.dom() =~= session.pending.dom());
    }
}

/// A rejected frame changes nothing but the receive buffer: where the frame
/// at the front of what was received has a status other than 0, an attempt
/// to route it gives the frame back as rejected, once, takes exactly that
/// frame out of the buffer, and leaves the table of requests and the
/// broadcast queue as they were.
pub proof fn lemma_rejected_frame_goes_nowhere(session: SessionView)
    requires
        scan_of(session.inbound) is Whole,
        decode_command(session.inbound).header.status != 0,
    ensures
        session.pump().1 == Some(Outcome::Rejected(decode_command(session.inbound))),
        session.pump().0.pending == session.pending,
        session.pump().0.broadcasts == session.broadcasts,
        session.pump().0.inbound == session.inbound.skip(scan_of(session.inbound)->Whole_0 as int),
        session.closed is None && session.awaits(decode_command(session.inbound).header.id)
            ==> session.respond(decode_command(session.inbound).header.id) == (
            session.pump().0,
            Outcome::Rejected(decode_command(session.inbound)),
        ),
        session.closed is None && session.broadcasts.len() == 0 ==> session.next_broadcast() == (
            session.pump().0,
            Outcome::Rejected(decode_command(session.inbound)),
        ),
{
}

/// An answer is claimed once: where the answer to a request has been read,
/// claiming it hands out that frame and the request waits no longer, so
/// that a second claim finds nothing under the id.
pub proof fn lemma_answer_is_claimed_once(session: SessionView, id: i32, frame: CommandView)
    requires
        session.closed is None,
        session.pending.dom().contains(id),
        session.pending[id] == PendingView::Delivered(frame),
    ensures
        session.respond(id).1 == Outcome::Frame(frame),
        !session.respond(id).0.pending.dom().contains(id),
        session.respond(id).0.broadcasts == session.broadcasts,
        session.respond(id).0.respond(id).1 == Outcome::NotRequested,
{
}

/// Broadcasts leave in the order in which they were read: a routed
/// broadcast stands behind all that were there, and the next one taken is
/// the oldest.
pub proof fn lemma_broadcasts_are_first_in_first_out(session: SessionView, frame: CommandView)
    requires
        session.closed is None,
        !session.awaits(frame.header.id),
    ensures
        session.route(frame).broadcasts == session.broadcasts.push(frame),
        session.route(frame).next_broadcast().1 == Outcome::Frame(
            if session.broadcasts.len() > 0 {
                session.broadcasts[0]
            } else {
                frame
            },
        ),
        session.route(frame).next_broadcast().0.broadcasts == if session.broadcasts.len() > 0 {
            session.broadcasts.drop_first().push(frame)
        } else {
            Seq::empty()
        },
{
    let routed = session.route(frame);
    assert(routed.broadcasts.drop_first() =~= if session.broadcasts.len() > 0 {
        session.broadcasts.drop_first().push(frame)
    } else {
        Seq::empty()
    });
}

/// The answer to a request that was given up is a broadcast: after a
/// cancel, a frame with the id of the cancelled request is routed to the end
/// of the broadcast queue, whether or not an answer had been read before,
/// and the table of requests has no entry for the id.
pub proof fn lemma_late_answer_is_broadcast(session: SessionView, id: i32, frame: CommandView)
    requires
        frame.header.id == id,
    ensures
        !session.cancel(id).pending.dom().contains(id),
        session.cancel(id).route(frame).pending == session.cancel(id).pending,
        session.cancel(id).route(frame).broadcasts == session.broadcasts.push(frame),
{
}

/// A closed session stays closed and hands out nothing: after a failure,
/// claims and reads end with that failure and change nothing, no request
/// waits, and nothing is left to send.
pub proof fn lemma_failure_closes(session: SessionView, error: StreamError, id: i32)
    requires
        session.closed is None,
    ensures
        session.fail(error).closed == Some(error),
        session.fail(error).pending.dom() == Set::<i32>::empty(),
        session.fail(error).outbound == Seq::<u8>::empty(),
        session.fail(error).respond(id) == (session.fail(error), Outcome::Closed(error)),
        session.fail(error).next_broadcast() == (session.fail(error), Outcome::Closed(error)),
        forall|later: StreamError| #[trigger] session.fail(error).fail(later) == session.fail(error),
{
}

/// An answer reaches its request: a frame with status 0 that carries the
/// id of a request just made becomes that request's answer, and claiming the
/// answer hands out exactly that frame and leaves no entry for the id.
pub proof fn lemma_answer_reaches_its_request(
    session: SessionView,
    command: BsonCommand<Document>,
    frame: CommandView,
)
    requires
        session.wf(),
        session.closed is None,
        session.next_id < i32::MAX,
        frame.header.id == session.next_id,
        frame.header.status == 0,
    ensures
        session.request(command).awaits(session.next_id),
        session.request(command).route(frame).pending[session.next_id] == PendingView::Delivered(
            frame,
        ),
        session.request(command).route(frame).broadcasts == session.broadcasts,
        session.request(command).route(frame).respond(session.next_id).1 == Outcome::Frame(frame),
        session.request(command).route(frame).respond(session.next_id).0.pending
            == session.pending,
{
    let asked = session.request(command);
    let routed = asked.route(frame);
    assert(!session.pending.dom().contains(session.next_id));
    assert(routed.respond(session.next_id).0.pending =~= session.pending);
}

/// Claiming an answer takes nothing from anyone else. Whatever is routed on
/// the way, the broadcasts that were there stay at the front of the queue in
/// their order, every other request still has its entry, and an answer that
/// had been read for another request is still there.
pub proof fn lemma_respond_keeps_the_rest(session: SessionView, id: i32)
    requires
        session.wf(),
    ensures
        session.respond(id).0.wf(),
        session.respond(id).0.next_id == session.next_id,
        session.respond(id).0.outbound == session.outbound,
        session.respond(id).0.closed == session.closed,
        session.broadcasts.is_prefix_of(session.respond(id).0.broadcasts),
        forall|other: i32|
            other != id && #[trigger] session.pending.dom().contains(other) ==> {
                &&& session.respond(id).0.pending.dom().contains(other)
                &&& session.pending[other] is Delivered ==> session.respond(id).0.pending[other]
                    == session.pending[other]
            },
    decreases session.inbound.len(),
{
    if session.closed is None && session.pending.dom().contains(id) && session.pending[id]
        is Awaited {
        let (next, stop) = session.pump();
        if stop is None {
            let frame = decode_command(session.inbound);
            let rest = SessionView {
                inbound: session.inbound.skip(scan_of(session.inbound)->Whole_0 as int),
                ..session
            };
            lemma_route_delivers_once(rest, frame);
            lemma_respond_keeps_the_rest(next, id);
            assert forall|other: i32|
                other != id && #[trigger] session.pending.dom().contains(other) implies {
                &&& session.respond(id).0.pending.dom().contains(other)
                &&& session.pending[other] is Delivered ==> session.respond(id).0.pending[other]
                    == session.pending[other]
            } by {
                assert(next.pending.dom().contains(other));
            }
        }
    }
}

/// Taking a broadcast takes nothing from the requests. Whatever is routed on
/// the way, the same requests wait afterwards, an answer that had been read
/// is still there, and what is handed out is the oldest broadcast if there
/// was one.
pub proof fn lemma_next_broadcast_keeps_the_answers(session: SessionView)
    requires
        session.wf(),
    ensures
        session.next_broadcast().0.wf(),
        session.next_broadcast().0.next_id == session.next_id,
        session.next_broadcast().0.outbound == session.outbound,
        session.next_broadcast().0.closed == session.closed,
        session.next_broadcast().0.pending.dom() == session.pending.dom(),
        forall|id: i32|
            #[trigger] session.pending.dom().contains(id) && session.pending[id] is Delivered
                ==> session.next_broadcast().0.pending[id] == session.pending[id],
        session.closed is None && session.broadcasts.len() > 0 ==> {
            &&& session.next_broadcast().1 == Outcome::Frame(session.broadcasts[0])
            &&& session.next_broadcast().0.broadcasts == session.broadcasts.drop_first()
            &&& session.next_broadcast().0.pending == session.pending
            &&& session.next_broadcast().0.inbound == session.inbound
        },
    decreases session.inbound.len(),
{
    if session.closed is None && session.broadcasts.len() == 0 {
        let (next, stop) = session.pump();
        if stop is None {
            let frame = decode_command(session.inbound);
            let rest = SessionView {
                inbound: session.inbound.skip(scan_of(session.inbound)->Whole_0 as int),
                ..session
            };
            lemma_route_delivers_once(rest, frame);
            lemma_next_broadcast_keeps_the_answers(next);
            assert forall|id: i32|
                #[trigger] session.pending.dom().contains(id) && session.pending[id]
                    is Delivered implies session.next_broadcast().0.pending[id]
                == session.pending[id] by {
                assert(next.pending.dom().contains(id));
            }
        }
    }
}

/// What follows a frame does not change where it goes: an attempt to route
/// that does not end for want of bytes ends the same way, and leaves the
/// same session, whether or not more bytes stand behind the frame.
pub proof fn lemma_pump_ignores_what_follows(session: SessionView, more: Seq<u8>)
    requires
        session.pump().1 != Some(Outcome::Starved),
    ensures
        session.fed(more).pump() == (session.pump().0.fed(more), session.pump().1),
{
    lemma_scan_is_stable(session.inbound, more);
}

/// What arrives later does not change an answer: a claim that does not end
/// for want of bytes ends the same way, and leaves the same session, whether
/// or not more bytes stand behind what it read. So it does not matter how
/// the transport cuts the bytes into reads.
pub proof fn lemma_respond_ignores_what_follows(session: SessionView, id: i32, more: Seq<u8>)
    requires
        session.respond(id).1 != Outcome::Starved,
    ensures
        session.fed(more).respond(id) == (session.respond(id).0.fed(more), session.respond(id).1),
    decreases session.inbound.len(),
{
    if session.closed is None && session.pending.dom().contains(id) && session.pending[id]
        is Awaited {
        lemma_pump_ignores_what_follows(session, more);
        if session.pump().1 is None {
            lemma_respond_ignores_what_follows(session.pump().0, id, more);
        }
    }
}

/// What arrives later does not change a broadcast: taking one, where it
/// does not end for want of bytes, ends the same way and leaves the same
/// session whether or not more bytes stand behind what it read.
pub proof fn lemma_next_broadcast_ignores_what_follows(session: SessionView, more: Seq<u8>)
    requires
        session.next_broadcast().1 != Outcome::Starved,
    ensures
        session.fed(more).next_broadcast() == (
            session.next_broadcast().0.fed(more),
            session.next_broadcast().1,
        ),
    decreases session.inbound.len(),
{
    if session.closed is None && session.broadcasts.len() == 0 {
        lemma_pump_ignores_what_follows(session, more);
        if session.pump().1 is None {
            lemma_next_broadcast_ignores_what_follows(session.pump().0, more);
        }
    }
}

/// Routing does not look at what was received: the frames go to the same
/// places whatever the receive buffer holds.
pub proof fn lemma_routed_ignores_inbound(
    session: SessionView,
    frames: Seq<CommandView>,
    inbound: Seq<u8>,
)
    ensures
        (SessionView { inbound, ..session }).routed(frames) == (SessionView {
            inbound,
            ..session.routed(frames)
        }),
    decreases frames.len(),
{
    if frames.len() > 0 {
        lemma_routed_ignores_inbound(session.route(frames[0]), frames.drop_first(), inbound);
        assert((SessionView { inbound, ..session }).route(frames[0]) == (SessionView {
            inbound,
            ..session.route(frames[0])
        }));
    }
}

/// Frames for which no request waits become broadcasts in the order in
/// which they come, behind those that were there, and the table of requests
/// stays as it is.
pub proof fn lemma_routed_without_a_waiting_request(
    session: SessionView,
    frames: Seq<CommandView>,
)
    requires
        forall|i: int| 0 <= i < frames.len() ==> !session.awaits(#[trigger] frames[i].header.id),
    ensures
        session.routed(frames).pending == session.pending,
        session.routed(frames).broadcasts == session.broadcasts + frames,
        session.routed(frames).inbound == session.inbound,
        session.routed(frames).outbound == session.outbound,
        session.routed(frames).next_id == session.next_id,
        session.routed(frames).closed == session.closed,
    decreases frames.len(),
{
    if frames.len() > 0 {
        let next = session.route(frames[0]);
        let later = frames.drop_first();
        assert forall|i: int| 0 <= i < later.len() implies !next.awaits(
            #[trigger] later[i].header.id,
        ) by {
            assert(later[i] == frames[i + 1]);
        }
        lemma_routed_without_a_waiting_request(next, later);
        assert(session.broadcasts.push(frames[0]) + later =~= session.broadcasts + frames);
    } else {
        assert(session.broadcasts + frames =~= session.broadcasts);
    }
}

/// Routing frames keeps the invariant, keeps every request that waits for
/// another id waiting, and changes neither counter nor buffers.
pub proof fn lemma_routed_keeps_waiting(session: SessionView, frames: Seq<CommandView>, id: i32)
    requires
        session.wf(),
        session.awaits(id),
        forall|i: int|
            0 <= i < frames.len() ==> (#[trigger] frames[i]).header.status == 0
                && frames[i].header.id != id,
    ensures
        session.routed(frames).wf(),
        session.routed(frames).awaits(id),
        session.routed(frames).closed == session.closed,
        session.routed(frames).next_id == session.next_id,
        session.routed(frames).outbound == session.outbound,
        session.routed(frames).inbound == session.inbound,
    decreases frames.len(),
{
    if frames.len() > 0 {
        let next = session.route(frames[0]);
        let later = frames.drop_first();
        lemma_route_delivers_once(session, frames[0]);
        assert forall|i: int| 0 <= i < later.len() implies (#[trigger] later[i]).header.status
            == 0 && later[i].header.id != id by {
            assert(later[i] == frames[i + 1]);
        }
        lemma_routed_keeps_waiting(next, later, id);
    }
}

/// A whole frame at the front is what the next attempt routes: where what
/// was received starts with the bytes of a frame that can be routed, the
/// attempt takes exactly these bytes and puts the frame where it belongs.
pub proof fn lemma_pump_routes_the_front_frame(
    session: SessionView,
    first: CommandView,
    behind: Seq<u8>,
)
    requires
        routable(first),
        session.inbound == encode_command(first) + behind,
    ensures
        session.pump() == ((SessionView { inbound: behind, ..session }).route(first), None::<
            Outcome,
        >),
{
    lemma_command_round_trip(first, behind);
    let whole = scan_of(session.inbound)->Whole_0;
    assert((encode_command(first) + behind).skip(whole as int) =~= behind);
}

/// An answer at the front of what was received is handed out by the claim,
/// and exactly its bytes leave the receive buffer.
pub proof fn lemma_answer_at_the_front(
    session: SessionView,
    id: i32,
    answer: CommandView,
    rest: Seq<u8>,
)
    requires
        session.closed is None,
        session.awaits(id),
        routable(answer),
        answer.header.id == id,
        session.inbound == encode_command(answer) + rest,
    ensures
        session.respond(id) == (
            SessionView { inbound: rest, pending: session.pending.remove(id), ..session },
            Outcome::Frame(answer),
        ),
{
    lemma_pump_routes_the_front_frame(session, answer, rest);
    let next = session.pump().0;
    assert(next.pending[id] == PendingView::Delivered(answer));
    assert(next.respond(id) == (
        SessionView { pending: next.pending.remove(id), ..next },
        Outcome::Frame(answer),
    ));
    assert(next.pending.remove(id) =~= session.pending.remove(id));
    assert(session.respond(id) == next.respond(id));
}

/// An answer behind any number of other frames. Where a request waits, and
/// what was received is whole frames for other ids, then the answer, then
/// anything, the claim hands out the answer. Every frame before it has gone
/// where routing puts it, in the order of the wire; exactly the bytes up to
/// the end of the answer have left the receive buffer, and what stood behind
/// them is untouched.
pub proof fn lemma_answer_behind_other_frames(
    session: SessionView,
    id: i32,
    before: Seq<CommandView>,
    answer: CommandView,
    rest: Seq<u8>,
)
    requires
        session.wf(),
        session.closed is None,
        session.awaits(id),
        forall|i: int|
            0 <= i < before.len() ==> routable(#[trigger] before[i]) && before[i].header.id != id,
        routable(answer),
        answer.header.id == id,
        session.inbound == wire(before) + encode_command(answer) + rest,
    ensures
        session.respond(id).1 == Outcome::Frame(answer),
        session.respond(id).0 == (SessionView {
            inbound: rest,
            pending: session.routed(before).pending.remove(id),
            ..session.routed(before)
        }),
    decreases before.len(),
{
    if before.len() == 0 {
        assert(session.inbound =~= encode_command(answer) + rest);
        lemma_answer_at_the_front(session, id, answer, rest);
    } else {
        let first = before[0];
        let later = before.drop_first();
        let behind = wire(later) + encode_command(answer) + rest;
        assert(session.inbound =~= encode_command(first) + behind);
        lemma_pump_routes_the_front_frame(session, first, behind);
        let cut = SessionView { inbound: behind, ..session };
        let next = cut.route(first);
        lemma_route_delivers_once(cut, first);
        assert(next.awaits(id));
        assert forall|i: int| 0 <= i < later.len() implies routable(#[trigger] later[i])
            && later[i].header.id != id by {
            assert(later[i] == before[i + 1]);
        }
        lemma_answer_behind_other_frames(next, id, later, answer, rest);
        lemma_routed_ignores_inbound(session.route(first), later, behind);
        assert(next == (SessionView { inbound: behind, ..session.route(first) }));
        assert(session.respond(id) == next.respond(id));
    }
}

/// An answer behind broadcasts. Where a request waits, and what was
/// received is whole frames that no request waits for, then the answer, then
/// anything, the claim hands out the answer, the frames before it stand in
/// the broadcast queue behind those that were there, in the order of the
/// wire, and nothing else has changed but that the request no longer waits
/// and the bytes up to the end of the answer have left the receive buffer.
pub proof fn lemma_answer_behind_broadcasts(
    session: SessionView,
    id: i32,
    before: Seq<CommandView>,
    answer: CommandView,
    rest: Seq<u8>,
)
    requires
        session.wf(),
        session.closed is None,
        session.awaits(id),
        forall|i: int|
            0 <= i < before.len() ==> routable(#[trigger] before[i]) && !session.awaits(
                before[i].header.id,
            ),
        routable(answer),
        answer.header.id == id,
        session.inbound == wire(before) + encode_command(answer) + rest,
    ensures
        session.respond(id) == (
            SessionView {
                inbound: rest,
                pending: session.pending.remove(id),
                broadcasts: session.broadcasts + before,
                ..session
            },
            Outcome::Frame(answer),
        ),
{
    lemma_answer_behind_other_frames(session, id, before, answer, rest);
    lemma_routed_without_a_waiting_request(session, before);
}

} // verus!
