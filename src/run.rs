use vstd::prelude::*;
use crate::address::Ipv4Address;
use crate::packet::Inbound;
use crate::session::{
    after_request, answers, deadline_spec, elapsed_spec, step_spec, Action, Event, Phase, Reply,
    Session, IDENTIFIER,
};

verus! {

/// The session and the actions that come of handing `events` to `s` in order.
pub open spec fn run(s: Session, events: Seq<Event>) -> (Session, Seq<Action>)
    decreases events.len(),
{
    if events.len() == 0 {
        (s, Seq::<Action>::empty())
    } else {
        let (t, acts) = run(s, events.drop_last());
        let (p, a) = step_spec(t, events.last());
        (Session { phase: p, ..t }, acts.push(a))
    }
}

/// The replies among `acts`, in order.
pub open spec fn reports(acts: Seq<Action>) -> Seq<Reply>
    decreases acts.len(),
{
    if acts.len() == 0 {
        Seq::<Reply>::empty()
    } else {
        let rest = reports(acts.drop_last());
        match acts.last() {
            Action::Report(r) => rest.push(r),
            _ => rest,
        }
    }
}

/// The sequence numbers of the requests sent among `acts`, in order.
pub open spec fn sent_sequences(acts: Seq<Action>) -> Seq<u16>
    decreases acts.len(),
{
    if acts.len() == 0 {
        Seq::<u16>::empty()
    } else {
        let rest = sent_sequences(acts.drop_last());
        match acts.last() {
            Action::Send { sequence, .. } => rest.push(sequence),
            _ => rest,
        }
    }
}

/// The sequence numbers `0, 1, ..., k - 1`.
pub open spec fn first_sequences(k: nat) -> Seq<u16> {
    Seq::new(k, |i: int| i as u16)
}

pub open spec fn initial(requests: u16, interval: u16) -> Session {
    Session { requests, interval, phase: Phase::Pacing { sequence: 0 } }
}

/// One request to a destination that never answers.
pub open spec fn silent_round(sent_at: u64) -> Seq<Event> {
    seq![Event::Paced, Event::Sent { at: sent_at }, Event::TimedOut]
}

pub open spec fn silent_events(sent_at: Seq<u64>) -> Seq<Event>
    decreases sent_at.len(),
{
    if sent_at.len() == 0 {
        Seq::<Event>::empty()
    } else {
        silent_events(sent_at.drop_last()) + silent_round(sent_at.last())
    }
}

/// One request answered by an echo reply with this tool's identifier and the
/// request's own sequence number.
pub open spec fn answered_round(
    sequence: u16,
    sent_at: u64,
    received_at: u64,
    source: Option<Ipv4Address>,
    payload: Vec<u8>,
) -> Seq<Event> {
    seq![
        Event::Paced,
        Event::Sent { at: sent_at },
        Event::Received {
            source,
            message: Inbound::EchoReply { identifier: IDENTIFIER, sequence, payload },
            at: received_at,
        },
        Event::Reported,
    ]
}

pub open spec fn answered_events(
    sent_at: Seq<u64>,
    received_at: Seq<u64>,
    source: Option<Ipv4Address>,
    payload: Vec<u8>,
) -> Seq<Event>
    decreases sent_at.len(),
{
    if sent_at.len() == 0 || received_at.len() != sent_at.len() {
        Seq::<Event>::empty()
    } else {
        answered_events(sent_at.drop_last(), received_at.drop_last(), source, payload)
            + answered_round(
            (sent_at.len() - 1) as u16,
            sent_at.last(),
            received_at.last(),
            source,
            payload,
        )
    }
}

proof fn lemma_run_append(s: Session, x: Seq<Event>, y: Seq<Event>)
    ensures
        run(s, x + y).0 == run(run(s, x).0, y).0,
        run(s, x + y).1 == run(s, x).1 + run(run(s, x).0, y).1,
    decreases y.len(),
{
    if y.len() == 0 {
        assert(x + y =~= x);
        assert(run(s, x).1 + Seq::<Action>::empty() =~= run(s, x).1);
    } else {
        assert((x + y).drop_last() =~= x + y.drop_last());
        lemma_run_append(s, x, y.drop_last());
        assert(run(s, x).1 + run(run(s, x).0, y).1 =~= (run(s, x).1 + run(run(s, x).0, y.drop_last()).1).push(
            step_spec(run(run(s, x).0, y.drop_last()).0, y.last()).1));
    }
}

proof fn lemma_reports_append(a: Seq<Action>, b: Seq<Action>)
    ensures
        reports(a + b) == reports(a) + reports(b),
        sent_sequences(a + b) == sent_sequences(a) + sent_sequences(b),
    decreases b.len(),
{
    if b.len() == 0 {
        assert(a + b =~= a);
        assert(reports(a) + reports(b) =~= reports(a));
        assert(sent_sequences(a) + sent_sequences(b) =~= sent_sequences(a));
    } else {
        assert((a + b).drop_last() =~= a + b.drop_last());
        lemma_reports_append(a, b.drop_last());
        match b.last() {
            Action::Report(r) => {
                assert(reports(a) + reports(b) =~= (reports(a) + reports(b.drop_last())).push(r));
            },
            Action::Send { sequence, .. } => {
                assert(sent_sequences(a) + sent_sequences(b) =~= (sent_sequences(a) + sent_sequences(
                    b.drop_last(),
                )).push(sequence));
            },
            _ => {},
        }
    }
}

proof fn lemma_run_push(s: Session, ev: Seq<Event>, e: Event)
    ensures
        run(s, ev.push(e)).0 == (Session { phase: step_spec(run(s, ev).0, e).0, ..run(s, ev).0 }),
        run(s, ev.push(e)).1 == run(s, ev).1.push(step_spec(run(s, ev).0, e).1),
{
    assert(ev.push(e).drop_last() =~= ev);
}

proof fn lemma_reports_push(acts: Seq<Action>, a: Action)
    ensures
        reports(acts.push(a)) == match a {
            Action::Report(r) => reports(acts).push(r),
            _ => reports(acts),
        },
        sent_sequences(acts.push(a)) == match a {
            Action::Send { sequence, .. } => sent_sequences(acts).push(sequence),
            _ => sent_sequences(acts),
        },
{
    assert(acts.push(a).drop_last() =~= acts);
}

proof fn lemma_run_three(s: Session, e0: Event, e1: Event, e2: Event)
    ensures
        ({
            let s1 = Session { phase: step_spec(s, e0).0, ..s };
            let s2 = Session { phase: step_spec(s1, e1).0, ..s1 };
            &&& run(s, seq![e0, e1, e2]).0 == Session { phase: step_spec(s2, e2).0, ..s2 }
            &&& run(s, seq![e0, e1, e2]).1 == seq![step_spec(s, e0).1, step_spec(s1, e1).1, step_spec(s2, e2).1]
        }),
{
    let e = Seq::<Event>::empty();
    assert(seq![e0, e1, e2] =~= e.push(e0).push(e1).push(e2));
    lemma_run_push(s, e, e0);
    lemma_run_push(s, e.push(e0), e1);
    lemma_run_push(s, e.push(e0).push(e1), e2);
    assert(run(s, e).1 =~= Seq::<Action>::empty());
    let s1 = Session { phase: step_spec(s, e0).0, ..s };
    let s2 = Session { phase: step_spec(s1, e1).0, ..s1 };
    assert(run(s, seq![e0, e1, e2]).1 =~= seq![step_spec(s, e0).1, step_spec(s1, e1).1, step_spec(s2, e2).1]);
}

proof fn lemma_run_four(s: Session, e0: Event, e1: Event, e2: Event, e3: Event)
    ensures
        ({
            let t = run(s, seq![e0, e1, e2]).0;
            &&& run(s, seq![e0, e1, e2, e3]).0 == Session { phase: step_spec(t, e3).0, ..t }
            &&& run(s, seq![e0, e1, e2, e3]).1 == run(s, seq![e0, e1, e2]).1.push(step_spec(t, e3).1)
        }),
{
    assert(seq![e0, e1, e2, e3] =~= seq![e0, e1, e2].push(e3));
    lemma_run_push(s, seq![e0, e1, e2], e3);
}

/// A destination that never answers: after each of the requests a session
/// makes has timed out, the session is finished and has reported nothing;
/// before that it is pacing the next request. The requests sent so far carry
/// the sequence numbers `0, 1, ...` in order, once each.
pub proof fn lemma_silent_destination(requests: u16, interval: u16, sent_at: Seq<u64>)
    requires
        1 <= requests,
        sent_at.len() <= requests,
    ensures
        run(initial(requests, interval), silent_events(sent_at)).0.requests == requests,
        run(initial(requests, interval), silent_events(sent_at)).0.interval == interval,
        run(initial(requests, interval), silent_events(sent_at)).0.phase == if sent_at.len() < requests {
            Phase::Pacing { sequence: sent_at.len() as u16 }
        } else {
            Phase::Finished
        },
        reports(run(initial(requests, interval), silent_events(sent_at)).1).len() == 0,
        sent_sequences(run(initial(requests, interval), silent_events(sent_at)).1) == first_sequences(sent_at.len()),
    decreases sent_at.len(),
{
    let s0 = initial(requests, interval);
    if sent_at.len() == 0 {
    } else {
        let prev = sent_at.drop_last();
        lemma_silent_destination(requests, interval, prev);
        let mid = run(s0, silent_events(prev));
        let k = prev.len() as u16;
        let round = silent_round(sent_at.last());
        lemma_run_append(s0, silent_events(prev), round);
        lemma_run_three(mid.0, Event::Paced, Event::Sent { at: sent_at.last() }, Event::TimedOut);
        let acts = run(mid.0, round).1;
        assert(reports(acts).len() == 0 && sent_sequences(acts) =~= seq![k]) by {
            let a = Seq::<Action>::empty();
            assert(acts =~= a.push(acts[0]).push(acts[1]).push(acts[2]));
            lemma_reports_push(a, acts[0]);
            lemma_reports_push(a.push(acts[0]), acts[1]);
            lemma_reports_push(a.push(acts[0]).push(acts[1]), acts[2]);
        }
        lemma_reports_append(mid.1, acts);
        assert(first_sequences(sent_at.len()) =~= first_sequences(prev.len()).push(k));
    }
}

/// A destination that answers every request with this tool's identifier and
/// the request's own sequence number before the window closes: the session
/// reports one reply per request, in the order sent, each with the sequence
/// number of its request and the time from that request's send to its reply.
/// The requests sent carry the sequence numbers `0, 1, ...` in order, once each.
pub proof fn lemma_answering_destination(
    requests: u16,
    interval: u16,
    sent_at: Seq<u64>,
    received_at: Seq<u64>,
    source: Option<Ipv4Address>,
    payload: Vec<u8>,
)
    requires
        1 <= requests,
        sent_at.len() <= requests,
        received_at.len() == sent_at.len(),
        forall|k: int| 0 <= k < sent_at.len() ==> #[trigger] received_at[k] < deadline_spec(sent_at[k]),
    ensures
        ({
            let end = run(initial(requests, interval), answered_events(sent_at, received_at, source, payload));
            &&& end.0.requests == requests
            &&& end.0.interval == interval
            &&& end.0.phase == if sent_at.len() < requests {
                Phase::Pacing { sequence: sent_at.len() as u16 }
            } else {
                Phase::Finished
            }
            &&& reports(end.1).len() == sent_at.len()
            &&& forall|k: int| 0 <= k < sent_at.len() ==> #[trigger] reports(end.1)[k] == (Reply {
                source,
                sequence: k as u16,
                elapsed_micros: elapsed_spec(sent_at[k], received_at[k]),
            })
            &&& sent_sequences(end.1) == first_sequences(sent_at.len())
        }),
    decreases sent_at.len(),
{
    let s0 = initial(requests, interval);
    if sent_at.len() == 0 {
    } else {
        let prev = sent_at.drop_last();
        let prev_r = received_at.drop_last();
        assert forall|k: int| 0 <= k < prev.len() implies #[trigger] prev_r[k] < deadline_spec(prev[k]) by {
            assert(prev_r[k] == received_at[k]);
            assert(prev[k] == sent_at[k]);
        }
        lemma_answering_destination(requests, interval, prev, prev_r, source, payload);
        let evs = answered_events(prev, prev_r, source, payload);
        let mid = run(s0, evs);
        let k = prev.len() as u16;
        let t = sent_at.last();
        let r = received_at.last();
        let message = Inbound::EchoReply { identifier: IDENTIFIER, sequence: k, payload };
        let round = answered_round(k, t, r, source, payload);
        assert(received_at[sent_at.len() - 1] < deadline_spec(sent_at[sent_at.len() - 1]));
        assert(answers(message));
        lemma_run_append(s0, evs, round);
        lemma_run_four(mid.0, Event::Paced, Event::Sent { at: t }, Event::Received { source, message, at: r }, Event::Reported);
        lemma_run_three(mid.0, Event::Paced, Event::Sent { at: t }, Event::Received { source, message, at: r });
        let acts = run(mid.0, round).1;
        let reply = Reply { source, sequence: k, elapsed_micros: elapsed_spec(t, r) };
        assert(reports(acts) =~= seq![reply] && sent_sequences(acts) =~= seq![k]) by {
            let a = Seq::<Action>::empty();
            assert(acts =~= a.push(acts[0]).push(acts[1]).push(acts[2]).push(acts[3]));
            lemma_reports_push(a, acts[0]);
            lemma_reports_push(a.push(acts[0]), acts[1]);
            lemma_reports_push(a.push(acts[0]).push(acts[1]), acts[2]);
            lemma_reports_push(a.push(acts[0]).push(acts[1]).push(acts[2]), acts[3]);
        }
        lemma_reports_append(mid.1, acts);
        assert(first_sequences(sent_at.len()) =~= first_sequences(prev.len()).push(k));
        assert(answered_events(sent_at, received_at, source, payload) == evs + round);
    }
}

/// A received message that does not answer this tool's requests leaves the
/// wait as it was, with the same deadline; a timeout after it ends the
/// request as a miss.
pub proof fn lemma_unrelated_message_keeps_waiting(
    s: Session,
    sequence: u16,
    sent_at: u64,
    source: Option<Ipv4Address>,
    message: Inbound,
    at: u64,
)
    requires
        s.phase == (Phase::Awaiting { sequence, sent_at }),
        !answers(message),
    ensures
        ({
            let evs = seq![Event::Received { source, message, at }, Event::TimedOut];
            &&& at < deadline_spec(sent_at) ==> step_spec(s, Event::Received { source, message, at }) == (
                s.phase,
                Action::Await { deadline: deadline_spec(sent_at) },
            )
            &&& at < deadline_spec(sent_at) ==> run(s, evs).0.phase == after_request(s, sequence).0
            &&& reports(run(s, evs).1).len() == 0
        }),
{
    let e = Seq::<Event>::empty();
    let e0 = Event::Received { source, message, at };
    let evs = seq![e0, Event::TimedOut];
    assert(evs =~= e.push(e0).push(Event::TimedOut));
    lemma_run_push(s, e, e0);
    lemma_run_push(s, e.push(e0), Event::TimedOut);
    let acts = run(s, evs).1;
    let a = Seq::<Action>::empty();
    assert(run(s, e).1 =~= a);
    lemma_reports_push(a, acts[0]);
    lemma_reports_push(a.push(acts[0]), acts[1]);
    assert(acts =~= a.push(acts[0]).push(acts[1]));
}

/// A reported reply's elapsed time is measured from the send of the request
/// being waited on, and is never negative.
pub proof fn lemma_elapsed_of_this_request(
    s: Session,
    sequence: u16,
    sent_at: u64,
    source: Option<Ipv4Address>,
    message: Inbound,
    at: u64,
)
    requires
        s.phase == (Phase::Awaiting { sequence, sent_at }),
        answers(message),
    ensures
        ({
            step_spec(s, Event::Received { source, message, at }).1 matches Action::Report(r) ==> {
                &&& at >= sent_at ==> r.elapsed_micros == at - sent_at
                &&& r.elapsed_micros >= 0
            }
        }),
{
}

} // verus!
