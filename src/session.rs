use vstd::prelude::*;
use icmp_socket::Icmpv4Packet;
use crate::address::{dotted_spec, Ipv4Address};
use crate::args::{RequestsToSend, TransmissionInterval};
use crate::error::Error;
use crate::text::{decimal_spec, push_decimal};
use crate::packet::{build_echo_request, echo_request_packet, is_echo_reply, Inbound};

verus! {

/// The identifier carried by every echo request of this tool.
pub const IDENTIFIER: u16 = 5091;

/// How long a reply is waited for after each request, in microseconds.
pub const REPLY_WINDOW_MICROS: u64 = 5_000_000;

/// How long a reply is waited for after each request, in seconds.
pub const REPLY_WINDOW_SECS: u64 = 5;

/// The payload of every echo request: the ASCII text `test packet`.
pub open spec fn payload_spec() -> Seq<u8> {
    seq![116u8, 101, 115, 116, 32, 112, 97, 99, 107, 101, 116]
}

/// The bytes sent as the payload of every echo request.
pub fn payload() -> (r: Vec<u8>)
    ensures
        r@ == payload_spec(),
{
    let r = vec![116u8, 101, 115, 116, 32, 112, 97, 99, 107, 101, 116];
    assert(r@ =~= payload_spec());
    r
}

/// Where a session stands between two events.
#[derive(Clone, Copy, Debug, PartialEq, Eq)]
pub enum Phase {
    /// Waiting out the interval before request `sequence` goes out.
    Pacing { sequence: u16 },
    /// Request `sequence` has been handed out to be sent.
    Sending { sequence: u16 },
    /// Request `sequence` went out at `sent_at`; waiting for its reply.
    Awaiting { sequence: u16, sent_at: u64 },
    /// A reply to request `sequence` has been handed out to be reported.
    Reporting { sequence: u16 },
    /// Every request has had its turn.
    Finished,
    /// The session stopped on an error.
    Failed,
}

/// A matched reply, as one output line reports it.
#[derive(Clone, Copy, Debug, PartialEq, Eq)]
pub struct Reply {
    /// Where the reply came from; `None` where it was not an IPv4 address.
    pub source: Option<Ipv4Address>,
    /// The sequence number that the reply carries.
    pub sequence: u16,
    /// Microseconds from the send to the receipt.
    pub elapsed_micros: u64,
}

/// What happened outside the session since its last action.
#[derive(Clone, Debug, PartialEq, Eq)]
pub enum Event {
    /// The pause asked for has elapsed.
    Paced,
    /// The request went out at `at` (microseconds on a monotonic clock).
    Sent { at: u64 },
    /// A packet came in at `at`.
    Received { source: Option<Ipv4Address>, message: Inbound, at: u64 },
    /// The reply window has closed.
    TimedOut,
    /// The reply has been reported.
    Reported,
}

/// What the session asks to be done next.
#[derive(Debug)]
pub enum Action {
    /// Pause for this many milliseconds, then hand back `Paced`.
    Pause { millis: u16 },
    /// Send this echo request, then hand back `Sent`.
    Send { sequence: u16, packet: Icmpv4Packet },
    /// Wait for a packet until `deadline`, handing back `Received` or `TimedOut`.
    Await { deadline: u64 },
    /// Report this reply, then hand back `Reported`.
    Report(Reply),
    /// The session is complete.
    Finish,
    /// The session stopped on this error.
    Abort(Error),
}

/// The sequencing of one ping session: a pause before each request, the
/// request, then a wait for its reply that ends at the first matching reply or
/// when the reply window closes.
#[derive(Clone, Copy, Debug, PartialEq, Eq)]
pub struct Session {
    pub requests: u16,
    pub interval: u16,
    pub phase: Phase,
}

/// When the reply window of a request sent at `sent_at` closes.
pub open spec fn deadline_spec(sent_at: u64) -> u64 {
    if sent_at <= u64::MAX - REPLY_WINDOW_MICROS {
        (sent_at + REPLY_WINDOW_MICROS) as u64
    } else {
        u64::MAX
    }
}

/// Microseconds from `from` to `to`; zero where the clock reads earlier.
pub open spec fn elapsed_spec(from: u64, to: u64) -> u64 {
    if to >= from {
        (to - from) as u64
    } else {
        0
    }
}

/// Whether a received message answers this tool's requests: an echo reply
/// that carries its identifier.
pub open spec fn answers(message: Inbound) -> bool {
    message matches Inbound::EchoReply { identifier, .. } && identifier == IDENTIFIER
}

pub open spec fn reply_sequence(message: Inbound) -> u16 {
    match message {
        Inbound::EchoReply { sequence, .. } => sequence,
        Inbound::Other => 0,
    }
}

/// The phase and action that follow request `sequence`, hit or miss.
pub open spec fn after_request(s: Session, sequence: u16) -> (Phase, Action) {
    if sequence + 1 < s.requests {
        (Phase::Pacing { sequence: (sequence + 1) as u16 }, Action::Pause { millis: s.interval })
    } else {
        (Phase::Finished, Action::Finish)
    }
}

/// The phase and action that follow event `e` in session `s`.
pub open spec fn step_spec(s: Session, e: Event) -> (Phase, Action) {
    match (s.phase, e) {
        (Phase::Pacing { sequence }, Event::Paced) => (
            Phase::Sending { sequence },
            Action::Send {
                sequence,
                packet: echo_request_packet(IDENTIFIER, sequence, payload_spec()),
            },
        ),
        (Phase::Sending { sequence }, Event::Sent { at }) => (
            Phase::Awaiting { sequence, sent_at: at },
            Action::Await { deadline: deadline_spec(at) },
        ),
        (Phase::Awaiting { sequence, sent_at }, Event::TimedOut) => after_request(s, sequence),
        (Phase::Awaiting { sequence, sent_at }, Event::Received { source, message, at }) => {
            if at >= deadline_spec(sent_at) {
                after_request(s, sequence)
            } else if answers(message) {
                (
                    Phase::Reporting { sequence },
                    Action::Report(
                        Reply {
                            source,
                            sequence: reply_sequence(message),
                            elapsed_micros: elapsed_spec(sent_at, at),
                        },
                    ),
                )
            } else {
                (s.phase, Action::Await { deadline: deadline_spec(sent_at) })
            }
        },
        (Phase::Reporting { sequence }, Event::Reported) => after_request(s, sequence),
        _ => (Phase::Failed, Action::Abort(Error::OutOfOrder)),
    }
}

/// The output line of a reply: `source,sequence,elapsed_micros`, with an
/// empty source where the reply did not come from an IPv4 address.
pub open spec fn line_spec(r: Reply) -> Seq<char> {
    let source = match r.source {
        Some(a) => dotted_spec(a.octets@),
        None => Seq::<char>::empty(),
    };
    source + seq![','] + decimal_spec(r.sequence as nat) + seq![','] + decimal_spec(
        r.elapsed_micros as nat,
    )
}

impl Reply {
    /// The line that reports this reply, without its line break.
    pub fn line(&self) -> (r: String)
        ensures
            r@ == line_spec(*self),
    {
        proof {
            reveal_strlit(",");
        }
        let mut out = match &self.source {
            Some(a) => a.dotted(),
            None => String::new(),
        };
        out.append(",");
        push_decimal(&mut out, self.sequence as u64);
        out.append(",");
        push_decimal(&mut out, self.elapsed_micros);
        assert(out@ =~= line_spec(*self));
        out
    }
}

impl Session {
    pub open spec fn wf(&self) -> bool {
        &&& 1 <= self.requests
        &&& match self.phase {
            Phase::Pacing { sequence } => sequence < self.requests,
            Phase::Sending { sequence } => sequence < self.requests,
            Phase::Awaiting { sequence, .. } => sequence < self.requests,
            Phase::Reporting { sequence } => sequence < self.requests,
            _ => true,
        }
    }

    /// A session about to pause before its first request, and that pause.
    pub fn new(requests: RequestsToSend, interval: TransmissionInterval) -> (r: (Session, Action))
        requires
            requests.wf(),
            interval.wf(),
        ensures
            r.0.wf(),
            r.0 == (Session { requests: requests.0, interval: interval.0, phase: Phase::Pacing { sequence: 0 } }),
            r.1 == (Action::Pause { millis: interval.0 }),
    {
        (
            Session { requests: requests.0, interval: interval.0, phase: Phase::Pacing { sequence: 0 } },
            Action::Pause { millis: interval.0 },
        )
    }

    fn after_request(&mut self, sequence: u16) -> (a: Action)
        requires
            old(self).wf(),
            sequence < old(self).requests,
        ensures
            final(self).wf(),
            final(self).requests == old(self).requests,
            final(self).interval == old(self).interval,
            (final(self).phase, a) == after_request(*old(self), sequence),
    {
        if sequence + 1 < self.requests {
            self.phase = Phase::Pacing { sequence: sequence + 1 };
            Action::Pause { millis: self.interval }
        } else {
            self.phase = Phase::Finished;
            Action::Finish
        }
    }

    /// Takes in one event and says what is to be done next.
    pub fn step(&mut self, event: Event) -> (a: Action)
        requires
            old(self).wf(),
        ensures
            final(self).wf(),
            final(self).requests == old(self).requests,
            final(self).interval == old(self).interval,
            (final(self).phase, a) == step_spec(*old(self), event),
    {
        match (self.phase, event) {
            (Phase::Pacing { sequence }, Event::Paced) => {
                match build_echo_request(IDENTIFIER, sequence, payload()) {
                    Ok(packet) => {
                        self.phase = Phase::Sending { sequence };
                        Action::Send { sequence, packet }
                    },
                    Err(_) => {
                        self.phase = Phase::Failed;
                        Action::Abort(Error::PacketBuilding)
                    },
                }
            },
            (Phase::Sending { sequence }, Event::Sent { at }) => {
                self.phase = Phase::Awaiting { sequence, sent_at: at };
                Action::Await { deadline: at.saturating_add(REPLY_WINDOW_MICROS) }
            },
            (Phase::Awaiting { sequence, sent_at }, Event::TimedOut) => self.after_request(sequence),
            (Phase::Awaiting { sequence, sent_at }, Event::Received { source, message, at }) => {
                let deadline = sent_at.saturating_add(REPLY_WINDOW_MICROS);
                if at >= deadline {
                    self.after_request(sequence)
                } else {
                    match is_echo_reply(&message) {
                        Some((identifier, reply, _)) => {
                            if identifier == IDENTIFIER {
                                self.phase = Phase::Reporting { sequence };
                                Action::Report(
                                    Reply {
                                        source,
                                        sequence: reply,
                                        elapsed_micros: at.saturating_sub(sent_at),
                                    },
                                )
                            } else {
                                Action::Await { deadline }
                            }
                        },
                        None => Action::Await { deadline },
                    }
                }
            },
            (Phase::Reporting { sequence }, Event::Reported) => self.after_request(sequence),
            _ => {
                self.phase = Phase::Failed;
                Action::Abort(Error::OutOfOrder)
            },
        }
    }
}

} // verus!
