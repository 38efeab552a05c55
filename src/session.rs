//! The decisions of one request/response exchange with the board: which
//! received messages end the wait for an acknowledgement, which are handed to
//! a collector, and what each collector keeps. The caller owns the serial
//! connection and the clock, and feeds in what it received and when.
use vstd::prelude::*;
use crate::parser::{line_model, tag_at};
use crate::text::{chars_of, string_of};
use crate::types::{Bridgelist, ChipStatus, Message, MessageModel, Net, NetModel, SupplySwitchPos};

verus! {

/// The longest wait for an acknowledgement, in milliseconds.
pub const RESPONSE_TIMEOUT_MS: u64 = 4000;

/// What the reader hands over to a waiting request.
#[derive(Debug, Clone, PartialEq)]
pub enum Received {
    Message(Message),
    /// The connection failed; the reader has stopped.
    Failed(String),
    /// Nothing arrived within the time left to wait.
    TimedOut,
}

/// Why a request failed.
#[derive(Debug, Clone, PartialEq)]
pub enum RequestError {
    /// The board answered with a negative acknowledgement.
    Rejected,
    /// The connection failed while waiting.
    Transport(String),
    /// No acknowledgement came within the bounded wait.
    Timeout,
    /// A line that fits no message came where a structured answer was awaited.
    Unparsable(String),
    /// The acknowledgement came without the record that the request asks for.
    Missing,
    /// Every sequence number has been used on this connection.
    SequenceExhausted,
}

/// What to do with one received event.
#[derive(Debug, PartialEq)]
pub enum AckStep {
    /// Keep waiting; hand this message to the collector.
    Capture(Message),
    /// The wait is over.
    Finished(Result<(), RequestError>),
}

/// Whether a message acknowledges (positively or not) the request with
/// sequence number `seq`; an acknowledgement without a number matches any.
pub open spec fn acknowledges(m: Message, seq: u32) -> bool {
    match m {
        Message::Ack(n) => n == Some(seq) || n is None,
        Message::Error(n) => n == Some(seq) || n is None,
        _ => false,
    }
}

pub open spec fn closes_wait(ev: Received, seq: u32) -> bool {
    match ev {
        Received::Message(m) => acknowledges(m, seq),
        _ => false,
    }
}

/// How an event ends the wait for `seq`, if it does: `Some(true)` for
/// success, `Some(false)` for failure, `None` to keep waiting.
pub open spec fn ack_outcome(seq: u32, ev: Received, elapsed_ms: u64) -> Option<bool> {
    match ev {
        Received::Message(Message::Ack(n)) if n == Some(seq) || n is None => Some(true),
        Received::Message(Message::Error(n)) if n == Some(seq) || n is None => Some(false),
        Received::Failed(_) => Some(false),
        Received::TimedOut => Some(false),
        _ => if elapsed_ms >= RESPONSE_TIMEOUT_MS {
            Some(false)
        } else {
            None
        },
    }
}

/// The result of a wait over a run of events: the outcome of the first event
/// that ends it, or `None` if none does.
pub open spec fn run_outcome(seq: u32, events: Seq<(Received, u64)>) -> Option<bool>
    decreases events.len(),
{
    if events.len() == 0 {
        None
    } else {
        match ack_outcome(seq, events[0].0, events[0].1) {
            Some(b) => Some(b),
            None => run_outcome(seq, events.drop_first()),
        }
    }
}

/// Milliseconds left to wait after `elapsed_ms`.
pub fn wait_budget(elapsed_ms: u64) -> (r: u64)
    ensures
        elapsed_ms < RESPONSE_TIMEOUT_MS ==> r == RESPONSE_TIMEOUT_MS - elapsed_ms,
        elapsed_ms >= RESPONSE_TIMEOUT_MS ==> r == 0,
{
    if elapsed_ms < RESPONSE_TIMEOUT_MS {
        RESPONSE_TIMEOUT_MS - elapsed_ms
    } else {
        0
    }
}

/// The wait for the acknowledgement of one request.
pub struct AckWait {
    pub seq: u32,
}

impl AckWait {
    pub fn new(seq: u32) -> (r: AckWait)
        ensures
            r.seq == seq,
    {
        AckWait { seq }
    }

    /// Decides on one event, received `elapsed_ms` after the request was sent.
    /// The acknowledgement for this request ends the wait (a negative one as
    /// a failure); a connection failure or a receive timeout fails it; any
    /// other message, an unrecognized line included, is handed to the
    /// collector, but once the bounded wait is over the wait fails instead.
    pub fn step(&self, event: Received, elapsed_ms: u64) -> (r: AckStep)
        ensures
            ack_outcome(self.seq, event, elapsed_ms) == Some(true) ==> r == AckStep::Finished(
                Ok(()),
            ),
            ack_outcome(self.seq, event, elapsed_ms) == Some(false) ==> r is Finished && r->Finished_0
                is Err,
            closes_wait(event, self.seq) && ack_outcome(self.seq, event, elapsed_ms) == Some(false)
                ==> r == AckStep::Finished(Err(RequestError::Rejected)),
            event is TimedOut ==> r == AckStep::Finished(Err(RequestError::Timeout)),
            match event {
                Received::Failed(e) => r == AckStep::Finished(Err(RequestError::Transport(e))),
                Received::Message(m) => !acknowledges(m, self.seq) && elapsed_ms
                    >= RESPONSE_TIMEOUT_MS ==> r == AckStep::Finished(Err(RequestError::Timeout)),
                Received::TimedOut => true,
            },
            ack_outcome(self.seq, event, elapsed_ms) is None ==> match event {
                Received::Message(m) => r == AckStep::Capture(m),
                _ => false,
            },
    {
        match event {
            Received::Message(m) => {
                match &m {
                    Message::Ack(n) => {
                        if n.is_none() || (n.is_some() && n.unwrap() == self.seq) {
                            return AckStep::Finished(Ok(()));
                        }
                    },
                    Message::Error(n) => {
                        if n.is_none() || (n.is_some() && n.unwrap() == self.seq) {
                            return AckStep::Finished(Err(RequestError::Rejected));
                        }
                    },
                    _ => {},
                }
                if elapsed_ms >= RESPONSE_TIMEOUT_MS {
                    return AckStep::Finished(Err(RequestError::Timeout));
                }
                AckStep::Capture(m)
            },
            Received::Failed(e) => AckStep::Finished(Err(RequestError::Transport(e))),
            Received::TimedOut => AckStep::Finished(Err(RequestError::Timeout)),
        }
    }
}

/// A wait never outlasts its bound: a run of events whose last one comes once
/// the bounded wait is over, or reports a receive timeout, ends the wait at
/// the latest there. When no event of the run acknowledges the request (by
/// its number, or without a number), the wait ends in failure.
pub proof fn lemma_wait_is_bounded(seq: u32, events: Seq<(Received, u64)>)
    requires
        events.len() > 0,
        events.last().1 >= RESPONSE_TIMEOUT_MS || events.last().0 is TimedOut,
    ensures
        run_outcome(seq, events) is Some,
        (forall|i: int| 0 <= i < events.len() ==> !closes_wait(#[trigger] events[i].0, seq))
            ==> run_outcome(seq, events) == Some(false),
    decreases events.len(),
{
    let first = events[0];
    if events.len() == 1 {
        assert(events.last() == first);
    } else {
        match ack_outcome(seq, first.0, first.1) {
            Some(b) => {
                if forall|i: int| 0 <= i < events.len() ==> !closes_wait(#[trigger] events[i].0, seq) {
                    assert(!closes_wait(events[0].0, seq));
                }
            },
            None => {
                let rest = events.drop_first();
                assert(rest.last() == events.last());
                lemma_wait_is_bounded(seq, rest);
                if forall|i: int| 0 <= i < events.len() ==> !closes_wait(#[trigger] events[i].0, seq) {
                    assert forall|i: int| 0 <= i < rest.len() implies !closes_wait(
                        #[trigger] rest[i].0,
                        seq,
                    ) by {
                        assert(rest[i] == events[i + 1]);
                    }
                }
            },
        }
    }
}

/// What a raw command's wait decides on one event.
#[derive(Debug, PartialEq)]
pub enum RawStep {
    Capture(Message),
    /// The wait is over: whether the board accepted the command.
    Finished(Result<bool, RequestError>),
}

/// Decides on one event of a raw command with sequence number `seq`: its own
/// acknowledgement (or one without a number) ends the wait, with its kind as
/// the answer; an unrecognized line or a failure fails it; other messages,
/// acknowledgements of other requests included, are collected until the
/// bounded wait is over.
pub fn raw_step(seq: u32, event: Received, elapsed_ms: u64) -> (r: RawStep)
    ensures
        match event {
            Received::Message(Message::Ack(n)) if n == Some(seq) || n is None => r
                == RawStep::Finished(Ok(true)),
            Received::Message(Message::Error(n)) if n == Some(seq) || n is None => r
                == RawStep::Finished(Ok(false)),
            Received::Message(Message::Unrecognized(t)) => r == RawStep::Finished(
                Err(RequestError::Unparsable(t)),
            ),
            Received::Message(m) => if elapsed_ms >= RESPONSE_TIMEOUT_MS {
                r == RawStep::Finished(Err(RequestError::Timeout))
            } else {
                r == RawStep::Capture(m)
            },
            Received::Failed(e) => r == RawStep::Finished(Err(RequestError::Transport(e))),
            Received::TimedOut => r == RawStep::Finished(Err(RequestError::Timeout)),
        },
{
    match event {
        Received::Message(m) => {
            match &m {
                Message::Ack(n) => {
                    if n.is_none() || (n.is_some() && n.unwrap() == seq) {
                        return RawStep::Finished(Ok(true));
                    }
                },
                Message::Error(n) => {
                    if n.is_none() || (n.is_some() && n.unwrap() == seq) {
                        return RawStep::Finished(Ok(false));
                    }
                },
                _ => {},
            }
            match m {
                Message::Unrecognized(t) => RawStep::Finished(Err(RequestError::Unparsable(t))),
                other => if elapsed_ms >= RESPONSE_TIMEOUT_MS {
                    RawStep::Finished(Err(RequestError::Timeout))
                } else {
                    RawStep::Capture(other)
                },
            }
        },
        Received::Failed(e) => RawStep::Finished(Err(RequestError::Transport(e))),
        Received::TimedOut => RawStep::Finished(Err(RequestError::Timeout)),
    }
}

pub open spec fn net_models(ns: Seq<Net>) -> Seq<NetModel> {
    ns.map_values(|n: Net| n@)
}

/// How a netlist listing moves on with one message: its markers open and
/// close it, and only nets inside it are kept.
pub open spec fn netlist_after(state: (bool, Seq<NetModel>), m: MessageModel) -> (bool, Seq<NetModel>) {
    match m {
        MessageModel::NetlistBegin => (true, state.1),
        MessageModel::NetlistEnd => (false, state.1),
        MessageModel::Net(n) => if state.0 {
            (true, state.1.push(n))
        } else {
            state
        },
        _ => state,
    }
}

/// Collects the nets of a netlist listing.
pub struct NetlistCollector {
    inside: bool,
    nets: Vec<Net>,
}

impl NetlistCollector {
    /// Whether a listing is open, and the nets kept so far.
    pub closed spec fn state(&self) -> (bool, Seq<NetModel>) {
        (self.inside, net_models(self.nets@))
    }

    pub fn new() -> (r: NetlistCollector)
        ensures
            r.state() == (false, Seq::<NetModel>::empty()),
    {
        let r = NetlistCollector { inside: false, nets: Vec::new() };
        assert(net_models(r.nets@) =~= Seq::<NetModel>::empty());
        r
    }

    pub fn capture(&mut self, m: Message)
        ensures
            final(self).state() == netlist_after(old(self).state(), m@),
    {
        match m {
            Message::NetlistBegin => {
                self.inside = true;
            },
            Message::NetlistEnd => {
                self.inside = false;
            },
            Message::Net(net) => {
                if self.inside {
                    let ghost before = self.nets@;
                    let ghost nm = net@;
                    self.nets.push(net);
                    assert(net_models(self.nets@) =~= net_models(before).push(nm));
                }
            },
            _ => {},
        }
    }

    /// The nets kept.
    pub fn finish(self) -> (r: Vec<Net>)
        ensures
            net_models(r@) == self.state().1,
    {
        self.nets
    }
}

pub open spec fn chip_texts(cs: Seq<ChipStatus>) -> Seq<Seq<char>> {
    cs.map_values(|c: ChipStatus| c.text@)
}

/// How a chip-status listing moves on with one message.
pub open spec fn chipstatus_after(state: (bool, Seq<Seq<char>>), m: MessageModel) -> (bool, Seq<Seq<char>>) {
    match m {
        MessageModel::ChipStatusBegin => (true, state.1),
        MessageModel::ChipStatusEnd => (false, state.1),
        MessageModel::ChipStatus(t) => if state.0 {
            (true, state.1.push(t))
        } else {
            state
        },
        _ => state,
    }
}

/// Collects the records of a chip-status listing.
pub struct ChipStatusCollector {
    inside: bool,
    records: Vec<ChipStatus>,
}

impl ChipStatusCollector {
    /// Whether a listing is open, and the records kept so far.
    pub closed spec fn state(&self) -> (bool, Seq<Seq<char>>) {
        (self.inside, chip_texts(self.records@))
    }

    pub fn new() -> (r: ChipStatusCollector)
        ensures
            r.state() == (false, Seq::<Seq<char>>::empty()),
    {
        let r = ChipStatusCollector { inside: false, records: Vec::new() };
        assert(chip_texts(r.records@) =~= Seq::<Seq<char>>::empty());
        r
    }

    pub fn capture(&mut self, m: Message)
        ensures
            final(self).state() == chipstatus_after(old(self).state(), m@),
    {
        match m {
            Message::ChipStatusBegin => {
                self.inside = true;
            },
            Message::ChipStatusEnd => {
                self.inside = false;
            },
            Message::ChipStatus(c) => {
                if self.inside {
                    let ghost before = self.records@;
                    let ghost t = c.text@;
                    self.records.push(c);
                    assert(chip_texts(self.records@) =~= chip_texts(before).push(t));
                }
            },
            _ => {},
        }
    }

    /// The records kept.
    pub fn finish(self) -> (r: Vec<ChipStatus>)
        ensures
            chip_texts(r@) == self.state().1,
    {
        self.records
    }
}

/// Keeps the last supply switch report.
pub struct SupplySwitchCollector {
    pub last: Option<SupplySwitchPos>,
}

impl SupplySwitchCollector {
    pub fn new() -> (r: SupplySwitchCollector)
        ensures
            r.last is None,
    {
        SupplySwitchCollector { last: None }
    }

    pub fn capture(&mut self, m: Message)
        ensures
            final(self).last == match m {
                Message::SupplySwitch(p) => Some(p),
                _ => old(self).last,
            },
    {
        if let Message::SupplySwitch(p) = m {
            self.last = Some(p);
        }
    }

    /// The last report, or `Missing` if none came.
    pub fn finish(self) -> (r: Result<SupplySwitchPos, RequestError>)
        ensures
            match self.last {
                Some(p) => r == Ok::<SupplySwitchPos, RequestError>(p),
                None => r == Err::<SupplySwitchPos, RequestError>(RequestError::Missing),
            },
    {
        match self.last {
            Some(p) => Ok(p),
            None => Err(RequestError::Missing),
        }
    }
}

/// Keeps the first bridge list report.
pub struct BridgelistCollector {
    pub first: Option<Bridgelist>,
}

impl BridgelistCollector {
    pub fn new() -> (r: BridgelistCollector)
        ensures
            r.first is None,
    {
        BridgelistCollector { first: None }
    }

    pub fn capture(&mut self, m: Message)
        ensures
            old(self).first is Some ==> final(self).first == old(self).first,
            old(self).first is None ==> match m {
                Message::Bridgelist(b) => final(self).first == Some(b),
                _ => final(self).first is None,
            },
    {
        if self.first.is_none() {
            if let Message::Bridgelist(b) = m {
                self.first = Some(b);
            }
        }
    }

    /// The first report, or `Missing` if none came.
    pub fn finish(self) -> (r: Result<Bridgelist, RequestError>)
        ensures
            match self.first {
                Some(b) => r is Ok && r->Ok_0 == b,
                None => r is Err && r->Err_0 == RequestError::Missing,
            },
    {
        match self.first {
            Some(b) => Ok(b),
            None => Err(RequestError::Missing),
        }
    }
}

/// The index after the leading carriage returns of `s[from..]`.
pub open spec fn cr_start(s: Seq<char>, from: int) -> int
    decreases s.len() - from,
{
    if 0 <= from < s.len() && s[from] == '\r' {
        cr_start(s, from + 1)
    } else {
        from
    }
}

/// The index before the trailing carriage returns of `s[..to]`, not below `lo`.
pub open spec fn cr_end(s: Seq<char>, lo: int, to: int) -> int
    decreases to - lo,
{
    if lo < to && to <= s.len() && s[to - 1] == '\r' {
        cr_end(s, lo, to - 1)
    } else {
        to
    }
}

/// A received line without carriage returns at either end.
pub open spec fn trim_cr(s: Seq<char>) -> Seq<char> {
    let a = cr_start(s, 0);
    s.subrange(a, cr_end(s, a, s.len() as int))
}

/// What the reader makes of one received line: the line without carriage
/// returns at its ends, and the message it holds if it is a protocol line
/// (one starting with `::`); other lines are banner or noise.
pub fn inbound_line(line: &str) -> (r: (String, Option<Message>))
    ensures
        r.0@ == trim_cr(line@),
        r.1 is Some <==> tag_at(trim_cr(line@), 0, seq![':', ':']),
        r.1 is Some ==> r.1->0@ == line_model(trim_cr(line@)),
{
    let v = chars_of(line);
    let n = v.len();
    let mut a: usize = 0;
    while a < n && v[a] == '\r'
        invariant
            n == v@.len(),
            a <= n,
            cr_start(v@, a as int) == cr_start(v@, 0),
        decreases n - a,
    {
        a = a + 1;
    }
    let mut b: usize = n;
    while a < b && v[b - 1] == '\r'
        invariant
            n == v@.len(),
            a <= b <= n,
            a == cr_start(v@, 0),
            cr_end(v@, a as int, b as int) == cr_end(v@, a as int, n as int),
        decreases b - a,
    {
        b = b - 1;
    }
    let t = string_of(&v, a, b);
    if b - a >= 2 && v[a] == ':' && v[a + 1] == ':' {
        assert(t@.subrange(0, 2) =~= seq![':', ':']);
        let m = crate::parser::parse_line(t.as_str());
        (t, Some(m))
    } else {
        proof {
            if tag_at(t@, 0, seq![':', ':']) {
                assert(t@.subrange(0, 2)[0] == t@[0]);
                assert(t@.subrange(0, 2)[1] == t@[1]);
            }
        }
        (t, None)
    }
}

} // verus!
