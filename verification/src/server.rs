//! The server's per-client state: the connection, and the responses that
//! could not be sent in one go and wait for their stream to become writable.
use vstd::prelude::*;

use std::collections::HashMap;

verus! {

broadcast use vstd::std_specs::hash::group_hash_axioms;

/// What the connection did with bytes handed to it for a stream.
#[derive(Clone, Copy, Debug, PartialEq, Eq)]
pub enum SendOutcome {
    /// This many bytes, from the start of what was handed over, were taken.
    Written(usize),
    /// The stream cannot take any bytes now.
    Done,
    /// Sending failed for another reason.
    Failed,
}

/// The number of bytes that a send took: none when it failed.
pub open spec fn spec_sent_bytes(outcome: SendOutcome) -> Option<nat> {
    match outcome {
        SendOutcome::Written(n) => Some(n as nat),
        SendOutcome::Done => Some(0),
        SendOutcome::Failed => None,
    }
}

/// A response body of which the first `written` bytes have been sent.
pub struct PartialResponse {
    pub body: Vec<u8>,
    pub written: usize,
}

/// The responses that wait for their stream to become writable, by stream ID.
/// Every response held is incomplete: fewer of its bytes were sent than it has.
pub struct ResponseTable {
    map: HashMap<u64, PartialResponse>,
}

impl View for ResponseTable {
    type V = Map<u64, PartialResponse>;

    closed spec fn view(&self) -> Map<u64, PartialResponse> {
        self.map@
    }
}

/// Every response in `m` still has bytes to send.
pub open spec fn all_incomplete(m: Map<u64, PartialResponse>) -> bool {
    forall|id: u64| #[trigger] m.contains_key(id) ==> m[id].written < m[id].body@.len()
}

/// The bytes of the response on `stream_id` that are still to be sent.
pub open spec fn spec_pending(m: Map<u64, PartialResponse>, stream_id: u64) -> Option<Seq<u8>> {
    if m.contains_key(stream_id) {
        Some(m[stream_id].body@.skip(m[stream_id].written as int))
    } else {
        None
    }
}

/// The table after a first attempt to send `body` on `stream_id` had `outcome`:
/// the response is kept when the attempt did not fail and left bytes unsent.
pub open spec fn spec_after_response(
    m: Map<u64, PartialResponse>,
    stream_id: u64,
    body: Vec<u8>,
    outcome: SendOutcome,
) -> Map<u64, PartialResponse> {
    match spec_sent_bytes(outcome) {
        Some(n) => if n < body@.len() {
            m.insert(stream_id, PartialResponse { body, written: n as usize })
        } else {
            m
        },
        None => m,
    }
}

/// The table after the pending bytes of the response on `stream_id` were
/// handed to the connection with `outcome`: a failure drops the response,
/// written bytes advance it, and a response with all bytes written is dropped.
pub open spec fn spec_after_write(
    m: Map<u64, PartialResponse>,
    stream_id: u64,
    outcome: SendOutcome,
) -> Map<u64, PartialResponse> {
    if !m.contains_key(stream_id) {
        m
    } else {
        let r = m[stream_id];
        match spec_sent_bytes(outcome) {
            None => m.remove(stream_id),
            Some(n) => if r.written + n == r.body@.len() {
                m.remove(stream_id)
            } else {
                m.insert(stream_id, PartialResponse { body: r.body, written: (r.written + n) as usize })
            },
        }
    }
}

/// What a write of the pending bytes on `stream_id` reports: the number of
/// bytes taken, or zero when there was nothing pending or the send failed.
pub open spec fn spec_write_result(
    m: Map<u64, PartialResponse>,
    stream_id: u64,
    outcome: SendOutcome,
) -> nat {
    if !m.contains_key(stream_id) {
        0
    } else {
        match spec_sent_bytes(outcome) {
            Some(n) => n,
            None => 0,
        }
    }
}

impl ResponseTable {
    #[verifier::type_invariant]
    closed spec fn inv(self) -> bool {
        all_incomplete(self.map@)
    }

    /// An empty table.
    pub fn new() -> (table: Self)
        ensures
            table@ == Map::<u64, PartialResponse>::empty(),
    {
        ResponseTable { map: HashMap::new() }
    }

    /// Whether a response waits on `stream_id`.
    pub fn contains(&self, stream_id: u64) -> (res: bool)
        ensures
            res == self@.contains_key(stream_id),
    {
        self.map.contains_key(&stream_id)
    }

    /// The bytes of the response on `stream_id` that are still to be sent,
    /// if a response waits on that stream; they are never empty.
    pub fn pending(&self, stream_id: u64) -> (res: Option<&[u8]>)
        ensures
            match res {
                Some(s) => spec_pending(self@, stream_id) == Some(s@) && s@.len() > 0,
                None => spec_pending(self@, stream_id) is None,
            },
            all_incomplete(self@),
    {
        proof {
            use_type_invariant(self);
        }
        match self.map.get(&stream_id) {
            None => None,
            Some(r) => {
                let rest = &r.body.as_slice()[r.written..r.body.len()];
                assert(rest@ =~= r.body@.skip(r.written as int));
                Some(rest)
            },
        }
    }

    /// What to hand to the connection on the first attempt to send the
    /// response `body`: the whole body, with the end-of-stream flag set, as
    /// the body is the whole response.
    pub fn first_write(body: &[u8]) -> (res: (&[u8], bool))
        ensures
            res.0@ == body@,
            res.1,
    {
        (body, true)
    }

    /// What to hand to the connection when `stream_id` becomes writable: all
    /// the bytes of its response that are still to be sent, and the
    /// end-of-stream flag, set when these bytes run to the end of the body.
    /// As every pending write hands over the whole rest of the body, the flag
    /// is always set: the last bytes of a response end its stream.
    pub fn next_write(&self, stream_id: u64) -> (res: Option<(&[u8], bool)>)
        ensures
            match res {
                Some((s, fin)) => {
                    &&& spec_pending(self@, stream_id) == Some(s@)
                    &&& s@.len() > 0
                    &&& fin == (self@[stream_id].written + s@.len() == self@[stream_id].body@.len())
                    &&& fin
                },
                None => spec_pending(self@, stream_id) is None,
            },
    {
        proof {
            use_type_invariant(self);
        }
        match self.map.get(&stream_id) {
            None => None,
            Some(r) => {
                let rest = &r.body.as_slice()[r.written..r.body.len()];
                assert(rest@ =~= r.body@.skip(r.written as int));
                let fin = r.written + rest.len() == r.body.len();
                Some((rest, fin))
            },
        }
    }

    /// Records the first attempt to send the response `body` on `stream_id`,
    /// which had `outcome`: unless the attempt failed or sent everything, the
    /// response waits for the stream to become writable again.
    pub fn record_response(&mut self, stream_id: u64, body: Vec<u8>, outcome: SendOutcome)
        ensures
            final(self)@ == spec_after_response(old(self)@, stream_id, body, outcome),
            all_incomplete(final(self)@),
    {
        proof {
            use_type_invariant(&*self);
        }
        let written = match outcome {
            SendOutcome::Written(v) => v,
            SendOutcome::Done => 0,
            SendOutcome::Failed => {
                return ;
            },
        };
        if written < body.len() {
            let mut map = HashMap::new();
            std::mem::swap(&mut map, &mut self.map);
            map.insert(stream_id, PartialResponse { body, written });
            self.map = map;
        }
        proof {
            use_type_invariant(&*self);
        }
    }

    /// Records that the pending bytes of the response on `stream_id` were
    /// handed to the connection with `outcome`, and reports how many bytes
    /// were taken. A connection takes no more bytes than it is handed.
    pub fn record_write(&mut self, stream_id: u64, outcome: SendOutcome) -> (written: usize)
        requires
            old(self)@.contains_key(stream_id) ==> (outcome matches SendOutcome::Written(n) ==> old(
                self,
            )@[stream_id].written + n <= old(self)@[stream_id].body@.len()),
        ensures
            final(self)@ == spec_after_write(old(self)@, stream_id, outcome),
            written == spec_write_result(old(self)@, stream_id, outcome),
            all_incomplete(final(self)@),
    {
        proof {
            use_type_invariant(&*self);
        }
        let mut map = HashMap::new();
        std::mem::swap(&mut map, &mut self.map);
        let ghost before = map@;
        let resp = match map.remove(&stream_id) {
            None => {
                self.map = map;
                assert(self.map@ =~= before);
                return 0;
            },
            Some(r) => r,
        };
        let written = match outcome {
            SendOutcome::Written(v) => v,
            SendOutcome::Done => 0,
            SendOutcome::Failed => {
                self.map = map;
                return 0;
            },
        };
        assert(before == old(self)@);
        assert(resp == before[stream_id]);
        assert(resp.body@.len() == resp.body.len());
        let total = resp.written + written;
        if total < resp.body.len() {
            map.insert(stream_id, PartialResponse { body: resp.body, written: total });
        }
        self.map = map;
        proof {
            if total < resp.body@.len() {
                assert(self.map@ =~= before.insert(
                    stream_id,
                    PartialResponse { body: resp.body, written: total },
                ));
            }
        }
        written
    }
}

/// After a first send of a response took `n` of its bytes, the bytes that
/// wait on the stream are exactly the rest of the body, when any remain.
pub proof fn lemma_response_leaves_rest(
    m: Map<u64, PartialResponse>,
    stream_id: u64,
    body: Vec<u8>,
    n: usize,
)
    requires
        n < body@.len(),
    ensures
        spec_pending(spec_after_response(m, stream_id, body, SendOutcome::Written(n)), stream_id)
            == Some(body@.skip(n as int)),
{
}

/// A write takes the bytes it sent off the front of what is pending, and the
/// response leaves the table exactly when nothing remains to be sent.
pub proof fn lemma_write_advances(m: Map<u64, PartialResponse>, stream_id: u64, n: usize)
    requires
        all_incomplete(m),
        spec_pending(m, stream_id) matches Some(p) && n <= p.len(),
    ensures
        ({
            let p = spec_pending(m, stream_id)->Some_0;
            let after = spec_pending(spec_after_write(m, stream_id, SendOutcome::Written(n)), stream_id);
            if n == p.len() {
                after is None
            } else {
                after == Some(p.skip(n as int))
            }
        }),
        all_incomplete(spec_after_write(m, stream_id, SendOutcome::Written(n))),
{
    let r = m[stream_id];
    let p = r.body@.skip(r.written as int);
    assert(r.body@.len() == r.body.len());
    if n < p.len() {
        let after = spec_after_write(m, stream_id, SendOutcome::Written(n));
        assert(after[stream_id].written == r.written + n);
        assert(r.body@.skip(r.written + n) =~= p.skip(n as int));
    }
}

/// The total number of bytes taken by a sequence of writes.
pub open spec fn spec_total(ns: Seq<usize>) -> nat
    decreases ns.len(),
{
    if ns.len() == 0 {
        0
    } else {
        spec_total(ns.drop_last()) + ns.last() as nat
    }
}

/// The table after writes on `stream_id` that took `ns[0]`, `ns[1]`, ...
/// bytes, in that order.
pub open spec fn spec_after_writes(
    m: Map<u64, PartialResponse>,
    stream_id: u64,
    ns: Seq<usize>,
) -> Map<u64, PartialResponse>
    decreases ns.len(),
{
    if ns.len() == 0 {
        m
    } else {
        spec_after_write(
            spec_after_writes(m, stream_id, ns.drop_last()),
            stream_id,
            SendOutcome::Written(ns.last()),
        )
    }
}

/// The bytes that those writes handed over and the connection took, in
/// order: of each write, the first bytes of what was then pending.
pub open spec fn spec_taken(m: Map<u64, PartialResponse>, stream_id: u64, ns: Seq<usize>) -> Seq<u8>
    decreases ns.len(),
{
    if ns.len() == 0 {
        Seq::empty()
    } else {
        let before = spec_after_writes(m, stream_id, ns.drop_last());
        spec_taken(m, stream_id, ns.drop_last()) + match spec_pending(before, stream_id) {
            Some(p) => p.take(ns.last() as int),
            None => Seq::empty(),
        }
    }
}

/// Writes on a stream take a waiting response on, byte by byte: after writes
/// that took `ns` bytes in all, the bytes taken are the body from where the
/// response stood, in order; the response waits with that many more bytes
/// written while bytes remain, and is gone once all are written.
pub proof fn lemma_writes_take_body(m: Map<u64, PartialResponse>, stream_id: u64, ns: Seq<usize>)
    requires
        all_incomplete(m),
        m.contains_key(stream_id),
        m[stream_id].written + spec_total(ns) <= m[stream_id].body@.len(),
    ensures
        ({
            let r = m[stream_id];
            let k = r.written + spec_total(ns);
            let after = spec_after_writes(m, stream_id, ns);
            &&& all_incomplete(after)
            &&& spec_taken(m, stream_id, ns) == r.body@.subrange(r.written as int, k)
            &&& k < r.body@.len() ==> {
                &&& after.contains_key(stream_id)
                &&& after[stream_id].body == r.body
                &&& after[stream_id].written == k
            }
            &&& k == r.body@.len() ==> !after.contains_key(stream_id)
        }),
    decreases ns.len(),
{
    let r = m[stream_id];
    assert(r.body@.len() == r.body.len());
    if ns.len() == 0 {
        assert(r.body@.subrange(r.written as int, r.written as int) =~= Seq::<u8>::empty());
    } else {
        let prefix = ns.drop_last();
        let n = ns.last();
        lemma_writes_take_body(m, stream_id, prefix);
        let k0 = r.written + spec_total(prefix);
        let before = spec_after_writes(m, stream_id, prefix);
        if k0 < r.body@.len() {
            let p = before[stream_id].body@.skip(before[stream_id].written as int);
            assert(p.take(n as int) =~= r.body@.subrange(k0, k0 + n));
            assert(r.body@.subrange(r.written as int, k0) + r.body@.subrange(k0, k0 + n)
                =~= r.body@.subrange(r.written as int, k0 + n));
            lemma_write_advances(before, stream_id, n);
        } else {
            assert(n == 0);
            assert(spec_after_writes(m, stream_id, ns) == before);
            assert(spec_taken(m, stream_id, prefix) + Seq::<u8>::empty() =~= spec_taken(m, stream_id, prefix));
        }
    }
}

/// A response is delivered whole and in order: after a first send that took
/// `w` of its bytes and writes that took `ns` bytes more, the bytes the
/// connection took are the first bytes of the body, as many as were taken;
/// the response waits on its stream with the rest pending while bytes remain,
/// and is gone once the whole body went out.
pub proof fn lemma_response_delivered_in_order(
    m: Map<u64, PartialResponse>,
    stream_id: u64,
    body: Vec<u8>,
    w: usize,
    ns: Seq<usize>,
)
    requires
        all_incomplete(m),
        w < body@.len(),
        w + spec_total(ns) <= body@.len(),
    ensures
        ({
            let first = spec_after_response(m, stream_id, body, SendOutcome::Written(w));
            let k = w + spec_total(ns);
            let after = spec_after_writes(first, stream_id, ns);
            &&& body@.take(w as int) + spec_taken(first, stream_id, ns) == body@.take(k)
            &&& k < body@.len() ==> spec_pending(after, stream_id) == Some(body@.skip(k))
            &&& k == body@.len() ==> spec_pending(after, stream_id) is None
        }),
{
    let first = spec_after_response(m, stream_id, body, SendOutcome::Written(w));
    let k = w + spec_total(ns);
    assert(all_incomplete(first));
    lemma_writes_take_body(first, stream_id, ns);
    assert(body@.take(w as int) + body@.subrange(w as int, k) =~= body@.take(k));
}

/// What a connection gave when asked for its next outgoing packet.
#[derive(Clone, Copy, Debug, PartialEq, Eq)]
pub enum PacketOutcome {
    /// A packet of this many bytes, ready to go out.
    Packet(usize),
    /// Nothing to send now.
    Done,
    /// Producing the packet failed.
    Failed,
}

/// An event in flushing a client's connection: the connection produced a
/// packet (or not), or a produced packet was handed to the runtime for
/// sending, which accepted it or not.
#[derive(Clone, Copy, Debug, PartialEq, Eq)]
pub enum FlushEvent {
    Produced(PacketOutcome),
    Handed(bool),
}

/// What the server does next while flushing a client's connection.
#[derive(Clone, Copy, Debug, PartialEq, Eq)]
pub enum FlushStep {
    /// Send this many bytes of the packet buffer to the packet's destination.
    Transmit(usize),
    /// Ask the connection for its next packet.
    Continue,
    /// Stop flushing this client.
    Stop,
    /// Close the connection with an error, then stop flushing this client.
    CloseAndStop,
}

/// The flushing rule: every produced packet is transmitted; flushing goes on
/// while the runtime takes the packets, and stops when the connection has
/// nothing more; a failure closes the connection.
pub open spec fn spec_flush_step(event: FlushEvent) -> FlushStep {
    match event {
        FlushEvent::Produced(PacketOutcome::Packet(n)) => FlushStep::Transmit(n),
        FlushEvent::Produced(PacketOutcome::Done) => FlushStep::Stop,
        FlushEvent::Produced(PacketOutcome::Failed) => FlushStep::CloseAndStop,
        FlushEvent::Handed(true) => FlushStep::Continue,
        FlushEvent::Handed(false) => FlushStep::Stop,
    }
}

/// The next step of flushing a client's connection after `event`.
pub fn flush_step(event: FlushEvent) -> (step: FlushStep)
    ensures
        step == spec_flush_step(event),
        event matches FlushEvent::Produced(PacketOutcome::Packet(n)) ==> step == FlushStep::Transmit(n),
{
    match event {
        FlushEvent::Produced(PacketOutcome::Packet(n)) => FlushStep::Transmit(n),
        FlushEvent::Produced(PacketOutcome::Done) => FlushStep::Stop,
        FlushEvent::Produced(PacketOutcome::Failed) => FlushStep::CloseAndStop,
        FlushEvent::Handed(accepted) => if accepted {
            FlushStep::Continue
        } else {
            FlushStep::Stop
        },
    }
}

/// Every packet a connection produces is transmitted whole, and flushing
/// goes on after each packet the runtime takes.
pub proof fn lemma_flush_transmits_everything(n: usize)
    ensures
        spec_flush_step(FlushEvent::Produced(PacketOutcome::Packet(n))) == FlushStep::Transmit(n),
        spec_flush_step(FlushEvent::Handed(true)) == FlushStep::Continue,
{
}

/// Flushing a connection ends exactly when it has nothing more to send, when
/// producing a packet fails, or when the runtime refuses a packet; it closes
/// the connection only on a failure.
pub proof fn lemma_flush_ends(event: FlushEvent)
    ensures
        (spec_flush_step(event) is Stop || spec_flush_step(event) is CloseAndStop) <==> (event
            == FlushEvent::Produced(PacketOutcome::Done) || event == FlushEvent::Produced(
            PacketOutcome::Failed,
        ) || event == FlushEvent::Handed(false)),
        spec_flush_step(event) is CloseAndStop <==> event == FlushEvent::Produced(
            PacketOutcome::Failed,
        ),
{
}

/// The body sent when the requested file cannot be read: `Not Found!` and a
/// CR LF line break.
pub open spec fn not_found_body() -> Seq<u8> {
    seq![0x4eu8, 0x6fu8, 0x74u8, 0x20u8, 0x46u8, 0x6fu8, 0x75u8, 0x6eu8, 0x64u8, 0x21u8, 0x0du8, 0x0au8]
}

/// The body of the response to a request: the contents of the requested
/// file when it could be read, the not-found message otherwise.
pub fn response_body(file: Option<Vec<u8>>) -> (body: Vec<u8>)
    ensures
        body@ == match file {
            Some(contents) => contents@,
            None => not_found_body(),
        },
{
    match file {
        Some(contents) => contents,
        None => {
            let mut body: Vec<u8> = Vec::new();
            body.push(0x4eu8);
            body.push(0x6fu8);
            body.push(0x74u8);
            body.push(0x20u8);
            body.push(0x46u8);
            body.push(0x6fu8);
            body.push(0x75u8);
            body.push(0x6eu8);
            body.push(0x64u8);
            body.push(0x21u8);
            body.push(0x0du8);
            body.push(0x0au8);
            assert(body@ =~= not_found_body());
            body
        },
    }
}

/// A client of the server: its connection, and the responses waiting on it.
pub struct Client<C> {
    pub conn: C,
    pub partial_responses: ResponseTable,
}

impl<C> Client<C> {
    /// A client on a fresh connection, with nothing waiting to be sent.
    pub fn new(conn: C) -> (client: Self)
        ensures
            client.conn == conn,
            client.partial_responses@ == Map::<u64, PartialResponse>::empty(),
    {
        Client { conn, partial_responses: ResponseTable::new() }
    }
}

} // verus!
