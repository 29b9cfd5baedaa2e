//! The request engine: one record per in-flight request, each an explicit
//! state machine. The caller owns the poller, the sockets and the clock;
//! it asks the engine what to do for each record, does it, and hands back
//! what happened.
//!
//! One pump of the engine, as the caller runs it:
//! 1. `dns_expire`, then for each event on the resolver's token
//!    `dns_writable` (send the packets) and `dns_receive` for each datagram
//!    read, collecting the resolver's answers;
//! 2. for each record index, `begin` (deadline, then resolver answers); unless
//!    it says to skip, `on_event` for each event, performing `Write`
//!    (then `wrote`) and `Read` (then `received`);
//! 3. `sweep`, which drops the records that ended.

use crate::body::{body_data, body_framing, body_of, body_outcome, body_read, body_step, min, Framing, Outcome};
use crate::chunked::{chunked_phase, start_phase, ChunkPhase};
use crate::dns::{deadline_passed, is_elapsed, DnsClient, DnsId, DnsOutcome, DnsQuery, DnsResponse, SocketCommand};
use crate::head::{content_length_of, head_acceptable, head_parse_of, interpret_head, is_chunked, parse_head, HeadParse};
use crate::http::{is_failure, is_terminal, no_managed_header, request_bytes, Mode, ReqId, Request, Response, ResponseState};
use crate::util::{hash, host_hash};
use std::collections::HashMap;
use vstd::prelude::*;

verus! {

broadcast use vstd::std_specs::hash::group_hash_axioms;

/// A resolved address in the cache: IPv4 address (big-endian number), when
/// it was stored and for how long it may be used, in milliseconds.
#[derive(Clone, Copy, Debug, PartialEq, Eq, Structural)]
pub struct CachedAddr {
    pub ip_addr: u32,
    pub time_created: u64,
    pub ttl: u64,
}

/// A cache entry may be used while no more than its TTL has passed.
pub open spec fn is_fresh(c: CachedAddr, now: u64) -> bool {
    now as int - c.time_created as int <= c.ttl as int
}

impl CachedAddr {
    /// Whether more than the TTL has passed at `now`, so that the entry
    /// may no longer be used.
    pub fn is_outdated(&self, now: u64) -> (r: bool)
        ensures
            r == !is_fresh(*self, now),
    {
        now > self.time_created && now - self.time_created > self.ttl
    }
}

/// A connection for the caller to open: a TCP stream to `addr:port`,
/// wrapped in TLS for `server_name` when `secure`, registered for reading
/// and writing under `token`.
#[derive(Clone, Debug)]
pub struct ConnectTo {
    pub token: usize,
    pub addr: u32,
    pub port: u16,
    pub secure: bool,
    pub server_name: String,
}

/// What a new request needs first.
#[derive(Debug)]
pub enum Setup {
    /// Open this connection now: the address was cached.
    Connect(ConnectTo),
    /// The host is being resolved; apply this to the resolver's socket.
    Resolve(SocketCommand),
}

/// What the caller does next for a record.
#[derive(Debug)]
pub enum Action {
    /// Nothing; go on with the next event.
    Nothing,
    /// Nothing more for this record in this pump.
    Skip,
    /// Open this connection; nothing more for this record in this pump.
    Connect(ConnectTo),
    /// If the connection is established, write the record's unsent bytes
    /// and report with `wrote`; if it is not yet, skip the record.
    Write,
    /// Read the connection until it would block or ends, and report with
    /// `received`.
    Read,
    /// Deregister and drop the record's connection; nothing more for this
    /// record in this pump.
    Deregister,
}

/// The phase of a request.
pub enum Phase {
    /// Waiting for the resolver to answer lookup `dns_id`.
    Resolving { body: Vec<u8>, dns_id: DnsId, host: String, secure: bool },
    /// Connecting, then sending the bytes not yet written.
    Sending { unsent: Vec<u8> },
    /// Reading the response head.
    RecvHead { buffer: Vec<u8> },
    /// Reading the body. `stream` is every body byte that arrived and
    /// `delivered` the body handed out so far.
    RecvBody {
        bytes_read: usize,
        content_length: usize,
        framing: Framing,
        stream: Ghost<Seq<u8>>,
        delivered: Ghost<Seq<u8>>,
    },
    /// The response was complete.
    Done,
    /// The request ended in failure.
    Error,
}

/// One in-flight request.
pub struct InternalReq {
    pub id: usize,
    pub token: usize,
    pub time_created: u64,
    pub timeout: Option<u64>,
    pub state: Phase,
}

/// The phase is not an end.
pub open spec fn is_live(p: Phase) -> bool {
    !(p is Done || p is Error)
}

/// The record holds a connection.
pub open spec fn has_connection(p: Phase) -> bool {
    p is Sending || p is RecvHead || p is RecvBody
}

/// A body being read is consistent: the delivered bytes are the body of the
/// bytes that arrived, and the body is not complete yet.
pub open spec fn rec_wf(r: InternalReq) -> bool {
    match r.state {
        Phase::RecvBody { bytes_read, content_length, framing, stream, delivered } => {
            &&& bytes_read < content_length || framing is Chunked
            &&& bytes_read <= content_length
            &&& delivered@ == body_of(content_length, framing, stream@)
            &&& framing is Length ==> bytes_read as int == min(stream@.len() as int, content_length as int)
            &&& framing is Chunked ==> framing->0 == chunked_phase(stream@)
            &&& framing is Chunked ==> !(framing->0 is Done || framing->0 is Invalid)
        },
        _ => true,
    }
}

/// How far a request's events have come: 0 before the head, 1 after the
/// head, 2 after the end.
pub open spec fn stage(p: Phase) -> nat {
    if p is RecvBody {
        1
    } else if p is Done || p is Error {
        2
    } else {
        0
    }
}

/// The stage after one more event, `None` when the event may not come
/// there. Before the head comes the head or a failure; after it body data
/// or an end; after the end nothing.
pub open spec fn stage_after(s: nat, e: ResponseState) -> Option<nat> {
    if s == 0 {
        if e is Head {
            Some(1)
        } else if is_failure(e) {
            Some(2)
        } else {
            None
        }
    } else if s == 1 {
        if e is Data {
            Some(1)
        } else if is_terminal(e) {
            Some(2)
        } else {
            None
        }
    } else {
        None
    }
}

/// The stage after a run of events.
pub open spec fn run_stage(s: nat, es: Seq<Response>) -> Option<nat>
    decreases es.len(),
{
    if es.len() == 0 {
        Some(s)
    } else {
        match run_stage(s, es.drop_last()) {
            None => None,
            Some(t) => stage_after(t, es.last().state),
        }
    }
}

/// The events of one request are a prefix of
/// `Head · Data* · (Done | TimedOut | Aborted | UnknownHost | Error)`,
/// or a single failure before any head.
pub open spec fn lifecycle_prefix(es: Seq<Response>) -> bool {
    run_stage(0, es) is Some
}

/// Events of a request, taken in two runs, are valid exactly when the
/// second run is valid from where the first left off.
pub proof fn lemma_stage_split(s: nat, a: Seq<Response>, b: Seq<Response>)
    ensures
        run_stage(s, a + b) == (match run_stage(s, a) {
            None => None,
            Some(t) => run_stage(t, b),
        }),
    decreases b.len(),
{
    if b.len() == 0 {
        assert(a + b =~= a);
        if run_stage(s, a) is None {
        }
    } else {
        lemma_stage_split(s, a, b.drop_last());
        assert((a + b).drop_last() =~= a + b.drop_last());
        if run_stage(s, a) is None {
            lemma_none_stays(s, a, b);
        }
    }
}

proof fn lemma_none_stays(s: nat, a: Seq<Response>, b: Seq<Response>)
    requires
        run_stage(s, a) is None,
    ensures
        run_stage(s, a + b) is None,
    decreases b.len(),
{
    if b.len() == 0 {
        assert(a + b =~= a);
    } else {
        lemma_none_stays(s, a, b.drop_last());
        assert((a + b).drop_last() =~= a + b.drop_last());
    }
}

/// Each pump extends a request's events only as its phase allows: when
/// the events so far brought the request to the stage of its old phase,
/// and a step's events lead from that stage to the new phase's, all the
/// events together are still a valid prefix of its lifecycle.
pub proof fn lemma_lifecycle_extends(before: Seq<Response>, old_phase: Phase, step: Seq<Response>, new_phase: Phase)
    requires
        run_stage(0, before) == Some(stage(old_phase)),
        run_stage(stage(old_phase), step) == Some(stage(new_phase)),
    ensures
        run_stage(0, before + step) == Some(stage(new_phase)),
        lifecycle_prefix(before + step),
{
    lemma_stage_split(0, before, step);
}

/// The text form of the body's data event.
pub open spec fn data_of(s: ResponseState) -> Seq<u8> {
    match s {
        ResponseState::Data(d) => d@,
        _ => Seq::empty(),
    }
}

/// The event that ends a body with this outcome.
pub open spec fn outcome_state(o: Outcome) -> ResponseState {
    match o {
        Outcome::Done => ResponseState::Done,
        Outcome::Aborted => ResponseState::Aborted,
        _ => ResponseState::Error,
    }
}

/// The events of a body step: the data, if any, then the end, if reached.
pub open spec fn body_events(rs: Seq<Response>, id: usize, data: Seq<u8>, o: Outcome) -> bool {
    let k: int = if data.len() > 0 {
        1
    } else {
        0
    };
    &&& rs.len() == k + (if o is Continue {
        0int
    } else {
        1int
    })
    &&& forall|i: int| 0 <= i < rs.len() ==> (#[trigger] rs[i]).id.inner == id
    &&& data.len() > 0 ==> rs[0].state is Data && data_of(rs[0].state) == data
    &&& !(o is Continue) ==> rs[rs.len() - 1].state == outcome_state(o)
}

/// The record after a body step from `read` bytes of `content_length`,
/// framing `f`, over `bytes`; `stream` and `delivered` are the body bytes
/// that arrived and were handed out before.
pub open spec fn after_body(
    old_rec: InternalReq,
    new_rec: InternalReq,
    read: usize,
    content_length: usize,
    f: Framing,
    stream: Seq<u8>,
    delivered: Seq<u8>,
    bytes: Seq<u8>,
    eof: bool,
    rs: Seq<Response>,
    act: Action,
) -> bool {
    let data = body_data(read, content_length, f, bytes);
    let o = body_outcome(read, content_length, f, bytes, eof);
    &&& same_ticket(old_rec, new_rec)
    &&& body_events(rs, old_rec.id, data, o)
    &&& match o {
        Outcome::Continue => {
            &&& new_rec.state is RecvBody
            &&& new_rec.state->bytes_read == body_read(read, content_length, f, bytes)
            &&& new_rec.state->content_length == content_length
            &&& new_rec.state->framing == body_framing(f, bytes)
            &&& new_rec.state->stream@ == stream + bytes
            &&& new_rec.state->delivered@ == delivered + data
            &&& act is Nothing
        },
        Outcome::Done => new_rec.state is Done && act is Deregister,
        _ => new_rec.state is Error && act is Deregister,
    }
}

/// The record keeps its ticket, token and deadline.
pub open spec fn same_ticket(a: InternalReq, b: InternalReq) -> bool {
    &&& a.id == b.id
    &&& a.token == b.token
    &&& a.time_created == b.time_created
    &&& a.timeout == b.timeout
}

/// A single event for the record, which ends in failure.
pub open spec fn fails_with(old_rec: InternalReq, new_rec: InternalReq, rs: Seq<Response>, s: ResponseState) -> bool {
    &&& same_ticket(old_rec, new_rec)
    &&& rs == seq![Response { id: ReqId { inner: old_rec.id }, state: s }]
    &&& new_rec.state is Error
}

/// What `received` does with bytes that arrived, `eof` telling whether the
/// peer closed the stream after them.
///
/// While reading the head, the bytes are added to the buffer and the
/// buffer is read as a head: a malformed head, an unacceptable one, or the
/// end of the stream before the head is complete is an `Error`; a complete
/// head gives a `Head` event and the bytes after it start the body. While
/// reading the body, the bytes go through one body step.
pub open spec fn received_spec(old_rec: InternalReq, new_rec: InternalReq, bytes: Seq<u8>, eof: bool, rs: Seq<Response>, act: Action) -> bool {
    match old_rec.state {
        Phase::RecvBody { bytes_read, content_length, framing, stream, delivered } => after_body(
            old_rec,
            new_rec,
            bytes_read,
            content_length,
            framing,
            stream@,
            delivered@,
            bytes,
            eof,
            rs,
            act,
        ),
        Phase::RecvHead { buffer } => {
            let buf = buffer@ + bytes;
            match head_parse_of(buf) {
                None => fails_with(old_rec, new_rec, rs, ResponseState::Error) && act is Deregister,
                Some(None) => if eof {
                    fails_with(old_rec, new_rec, rs, ResponseState::Error) && act is Deregister
                } else {
                    &&& same_ticket(old_rec, new_rec)
                    &&& rs.len() == 0
                    &&& new_rec.state is RecvHead
                    &&& new_rec.state->buffer@ == buf
                    &&& act is Nothing
                },
                Some(Some(parsed)) => {
                    let hs = parsed.3;
                    if !head_acceptable(hs) {
                        fails_with(old_rec, new_rec, rs, ResponseState::Error) && act is Deregister
                    } else {
                        let cl = content_length_of(hs)->0;
                        let f = if is_chunked(hs) {
                            Framing::Chunked(start_phase())
                        } else {
                            Framing::Length
                        };
                        let rest = buf.subrange(parsed.0 as int, buf.len() as int);
                        &&& rs.len() >= 1
                        &&& rs[0].id.inner == old_rec.id
                        &&& rs[0].state is Head
                        &&& head_matches(rs[0].state, parsed.1, parsed.2, cl, is_chunked(hs))
                        &&& after_body(
                            old_rec,
                            new_rec,
                            0,
                            cl,
                            f,
                            Seq::empty(),
                            Seq::empty(),
                            rest,
                            eof,
                            rs.drop_first(),
                            act,
                        )
                    }
                },
            }
        },
        _ => false,
    }
}

/// The head event carries this status, advertised length and framing.
pub open spec fn head_matches(s: ResponseState, code: u16, reason: Seq<char>, cl: usize, chunked: bool) -> bool {
    match s {
        ResponseState::Head(h) => {
            &&& h.status.code == code
            &&& h.status.reason@ == reason
            &&& h.content_length == cl
            &&& h.transfer_chunked == chunked
        },
        _ => false,
    }
}


impl InternalReq {
    /// The request is complete.
    pub fn finish_done(&mut self)
        ensures
            same_ticket(*old(self), *final(self)),
            final(self).state is Done,
    {
        self.state = Phase::Done;
    }

    /// The request failed.
    pub fn finish_error(&mut self)
        ensures
            same_ticket(*old(self), *final(self)),
            final(self).state is Error,
    {
        self.state = Phase::Error;
    }

    /// Whether the request has ended.
    pub fn is_finished(&self) -> (r: bool)
        ensures
            r == !is_live(self.state),
    {
        match self.state {
            Phase::Done => true,
            Phase::Error => true,
            _ => false,
        }
    }

    /// One body step: hands out the body the bytes carry and ends the
    /// record when the body is complete, malformed or cut short.
    fn body_received(
        &mut self,
        read: usize,
        content_length: usize,
        framing: Framing,
        stream: Ghost<Seq<u8>>,
        delivered: Ghost<Seq<u8>>,
        bytes: &[u8],
        eof: bool,
    ) -> (r: (Vec<Response>, Action))
        requires
            read <= content_length,
            delivered@ == body_of(content_length, framing, stream@),
            framing is Length ==> read as int == min(stream@.len() as int, content_length as int),
            framing is Chunked ==> framing->0 == chunked_phase(stream@),
        ensures
            rec_wf(*final(self)),
            after_body(
                *old(self),
                *final(self),
                read,
                content_length,
                framing,
                stream@,
                delivered@,
                bytes@,
                eof,
                r.0@,
                r.1,
            ),
            run_stage(1, r.0@) == Some(stage(final(self).state)),
    {
        let step = body_step(read, content_length, framing, bytes, eof);
        proof {
            crate::body::lemma_step_extends_body(read, content_length, framing, stream@, bytes@);
        }
        let mut out: Vec<Response> = Vec::new();
        let ghost data = step.data@;
        if step.data.len() > 0 {
            out.push(Response { id: ReqId { inner: self.id }, state: ResponseState::Data(step.data) });
        }
        assert(run_stage(1, out@) == Some(1nat)) by {
            if data.len() > 0 {
                assert(out@.drop_last() =~= Seq::<Response>::empty());
                assert(run_stage(1, out@.drop_last()) == Some(1nat));
            }
        }
        let ghost mid = out@;
        let act = match step.outcome {
            Outcome::Continue => {
                self.state = Phase::RecvBody {
                    bytes_read: step.bytes_read,
                    content_length,
                    framing: step.framing,
                    stream: Ghost(stream@ + bytes@),
                    delivered: Ghost(delivered@ + data),
                };
                Action::Nothing
            },
            Outcome::Done => {
                out.push(Response { id: ReqId { inner: self.id }, state: ResponseState::Done });
                self.finish_done();
                Action::Deregister
            },
            Outcome::Aborted => {
                out.push(Response { id: ReqId { inner: self.id }, state: ResponseState::Aborted });
                self.finish_error();
                Action::Deregister
            },
            Outcome::Error => {
                out.push(Response { id: ReqId { inner: self.id }, state: ResponseState::Error });
                self.finish_error();
                Action::Deregister
            },
        };
        proof {
            if !(step.outcome is Continue) {
                assert(out@.drop_last() =~= mid);
            }
        }
        (out, act)
    }

    /// The record fails with `Error`, and its connection is dropped.
    fn error_now(&mut self) -> (r: (Vec<Response>, Action))
        ensures
            same_ticket(*old(self), *final(self)),
            final(self).state is Error,
            r.0@ == seq![Response { id: ReqId { inner: old(self).id }, state: ResponseState::Error }],
            r.1 is Deregister,
            run_stage(0, r.0@) == Some(2nat),
    {
        let out = self.end_with(ResponseState::Error);
        (out, Action::Deregister)
    }

    /// The record ends in this failure.
    fn end_with(&mut self, s: ResponseState) -> (r: Vec<Response>)
        requires
            is_failure(s),
        ensures
            same_ticket(*old(self), *final(self)),
            final(self).state is Error,
            r@ == seq![Response { id: ReqId { inner: old(self).id }, state: s }],
            run_stage(0, r@) == Some(2nat),
            run_stage(1, r@) == Some(2nat),
    {
        let ghost sg = s;
        let mut out: Vec<Response> = Vec::new();
        out.push(Response { id: ReqId { inner: self.id }, state: s });
        self.finish_error();
        assert(out@ =~= seq![Response { id: ReqId { inner: self.id }, state: sg }]);
        assert(out@.drop_last() =~= Seq::<Response>::empty());
        assert(run_stage(0, out@.drop_last()) == Some(0nat));
        assert(run_stage(1, out@.drop_last()) == Some(1nat));
        out
    }

    /// Bytes arrived on the record's connection; `eof` when the peer closed
    /// it after them. See [`received_spec`].
    pub fn received(&mut self, bytes: &[u8], eof: bool) -> (r: (Vec<Response>, Action))
        requires
            rec_wf(*old(self)),
            old(self).state is RecvHead || old(self).state is RecvBody,
        ensures
            rec_wf(*final(self)),
            received_spec(*old(self), *final(self), bytes@, eof, r.0@, r.1),
            run_stage(stage(old(self).state), r.0@) == Some(stage(final(self).state)),
    {
        let mut st = Phase::Error;
        std::mem::swap(&mut st, &mut self.state);
        let ghost old_rec = *old(self);
        match st {
            Phase::RecvBody { bytes_read, content_length, framing, stream, delivered } => {
                self.body_received(bytes_read, content_length, framing, stream, delivered, bytes, eof)
            },
            Phase::RecvHead { mut buffer } => {
                buffer.extend_from_slice(bytes);
                let ghost buf = buffer@;
                assert(buf =~= old_rec.state->buffer@ + bytes@);
                match parse_head(buffer.as_slice()) {
                    HeadParse::Invalid => {
                        self.error_now()
                    },
                    HeadParse::Partial => {
                        if eof {
                            self.error_now()
                        } else {
                            self.state = Phase::RecvHead { buffer };
                            (Vec::new(), Action::Nothing)
                        }
                    },
                    HeadParse::Complete { len, code, reason, headers } => {
                        match interpret_head(code, reason.as_str(), &headers) {
                            None => self.error_now(),
                            Some(head) => {
                                let cl = head.content_length;
                                let framing = if head.transfer_chunked {
                                    Framing::Chunked(ChunkPhase::Size { len: 0, digits: false })
                                } else {
                                    Framing::Length
                                };
                                let rest = vstd::slice::slice_subrange(buffer.as_slice(), len, buffer.len());
                                assert(body_of(cl, framing, Seq::empty()) =~= Seq::<u8>::empty()) by {
                                    if framing is Length {
                                    } else {
                                        assert(crate::chunked::chunked_body(Seq::empty()) =~= Seq::<u8>::empty());
                                    }
                                };
                                assert(framing is Chunked ==> framing->0 == chunked_phase(Seq::empty()));
                                let first = Response { id: ReqId { inner: self.id }, state: ResponseState::Head(head) };
                                let (tail, act) = self.body_received(
                                    0,
                                    cl,
                                    framing,
                                    Ghost(Seq::empty()),
                                    Ghost(Seq::empty()),
                                    rest,
                                    eof,
                                );
                                let mut out: Vec<Response> = vec![first];
                                let ghost tail_view = tail@;
                                let mut tail = tail;
                                out.append(&mut tail);
                                proof {
                                    assert(out@ =~= seq![first] + tail_view);
                                    assert(out@.drop_first() =~= tail_view);
                                    lemma_stage_split(0, seq![first], tail_view);
                                    assert(run_stage(0, seq![first]) == Some(1nat)) by {
                                        assert(seq![first].drop_last() =~= Seq::<Response>::empty());
                                        assert(run_stage(0, seq![first].drop_last()) == Some(0nat));
                                    }
                                }
                                (out, act)
                            },
                        }
                    },
                }
            },
            _ => {
                (Vec::new(), Action::Nothing)
            },
        }
    }
}


/// The outcome of the first resolver answer for this lookup, if any.
pub open spec fn first_answer(rs: Seq<DnsResponse>, id: DnsId) -> Option<DnsOutcome>
    decreases rs.len(),
{
    if rs.len() == 0 {
        None
    } else if rs[0].id == id {
        Some(rs[0].outcome)
    } else {
        first_answer(rs.drop_first(), id)
    }
}

/// The port for plain HTTP or HTTPS.
pub open spec fn port_for(secure: bool) -> u16 {
    if secure {
        443
    } else {
        80
    }
}

/// The connection to open for a request to `host` resolved to `addr`.
pub open spec fn connect_matches(c: ConnectTo, token: usize, addr: u32, secure: bool, host: Seq<char>) -> bool {
    &&& c.token == token
    &&& c.addr == addr
    &&& c.port == port_for(secure)
    &&& c.secure == secure
    &&& c.server_name@ == host
}

/// What `begin` does to a record at the start of a pump, with the answers
/// the resolver gave in this pump. An ended record is skipped. A record
/// past its deadline fails with `TimedOut`, and its connection, if any, is
/// dropped. A record waiting for a lookup that was answered: with an
/// address, the address is cached under the host's fingerprint and the
/// connection is opened; otherwise it fails with `UnknownHost` for a name
/// that does not exist, `TimedOut` for a lookup that timed out, and
/// `Error` for any other fault. Any other record is left as it is.
pub open spec fn begin_spec(
    old_rec: InternalReq,
    new_rec: InternalReq,
    now: u64,
    resolved: Seq<DnsResponse>,
    cache: Map<u64, CachedAddr>,
    new_cache: Map<u64, CachedAddr>,
    rs: Seq<Response>,
    act: Action,
) -> bool {
    if !is_live(old_rec.state) {
        rs.len() == 0 && act is Skip && new_rec == old_rec && new_cache == cache
    } else if deadline_passed(old_rec.time_created, old_rec.timeout, now) {
        &&& fails_with(old_rec, new_rec, rs, ResponseState::TimedOut)
        &&& new_cache == cache
        &&& if has_connection(old_rec.state) {
            act is Deregister
        } else {
            act is Skip
        }
    } else if old_rec.state is Resolving && first_answer(resolved, old_rec.state->dns_id) is Some {
        match first_answer(resolved, old_rec.state->dns_id)->0 {
            DnsOutcome::Known { addr, ttl } => {
                &&& same_ticket(old_rec, new_rec)
                &&& rs.len() == 0
                &&& new_rec.state is Sending
                &&& new_rec.state->unsent@ == old_rec.state->body@
                &&& new_cache == cache.insert(
                    host_hash(old_rec.state->host@),
                    CachedAddr { ip_addr: addr, time_created: now, ttl },
                )
                &&& act is Connect
                &&& connect_matches(act->Connect_0, old_rec.token, addr, old_rec.state->secure, old_rec.state->host@)
            },
            DnsOutcome::Unknown => fails_with(old_rec, new_rec, rs, ResponseState::UnknownHost)
                && act is Skip && new_cache == cache,
            DnsOutcome::TimedOut => fails_with(old_rec, new_rec, rs, ResponseState::TimedOut)
                && act is Skip && new_cache == cache,
            DnsOutcome::Error => fails_with(old_rec, new_rec, rs, ResponseState::Error) && act is Skip
                && new_cache == cache,
        }
    } else {
        rs.len() == 0 && act is Nothing && new_rec == old_rec && new_cache == cache
    }
}

/// What a readiness event asks of a record: nothing unless the event is
/// for the record's token; then writing while sending, reading while
/// receiving if the event is readable; an ended record is skipped.
pub open spec fn event_action(rec: InternalReq, token: usize, readable: bool) -> Action {
    if !is_live(rec.state) {
        Action::Skip
    } else if rec.token != token {
        Action::Nothing
    } else if rec.state is Sending {
        Action::Write
    } else if (rec.state is RecvHead || rec.state is RecvBody) && readable {
        Action::Read
    } else {
        Action::Nothing
    }
}

/// The time left before a record's deadline at `now`, never below zero;
/// `None` without a deadline.
pub open spec fn time_left(r: InternalReq, now: u64) -> Option<u64> {
    match r.timeout {
        None => None,
        Some(t) => {
            let elapsed: int = if now >= r.time_created {
                now - r.time_created
            } else {
                0
            };
            Some(if elapsed >= t { 0 } else { (t - elapsed) as u64 })
        },
    }
}

/// The smaller of two optional durations, `None` counting as no bound.
pub open spec fn min_left(a: Option<u64>, b: Option<u64>) -> Option<u64> {
    match (a, b) {
        (None, _) => b,
        (_, None) => a,
        (Some(x), Some(y)) => Some(if x <= y { x } else { y }),
    }
}

/// The least time left over all records.
pub open spec fn earliest_deadline(rs: Seq<InternalReq>, now: u64) -> Option<u64>
    decreases rs.len(),
{
    if rs.len() == 0 {
        None
    } else {
        min_left(earliest_deadline(rs.drop_last(), now), time_left(rs.last(), now))
    }
}

/// The records that have not ended, in order.
pub open spec fn live_records(rs: Seq<InternalReq>) -> Seq<InternalReq>
    decreases rs.len(),
{
    if rs.len() == 0 {
        Seq::empty()
    } else if is_live(rs.last().state) {
        live_records(rs.drop_last()).push(rs.last())
    } else {
        live_records(rs.drop_last())
    }
}

/// The engine: the resolver, the address cache keyed by host fingerprint,
/// the in-flight records in submission order and the next ticket.
pub struct Client {
    dns: DnsClient,
    dns_cache: HashMap<u64, CachedAddr>,
    requests: Vec<InternalReq>,
    next_id: usize,
}

impl Client {
    /// The in-flight records, oldest first.
    pub closed spec fn records(&self) -> Seq<InternalReq> {
        self.requests@
    }

    /// The address cache.
    pub closed spec fn cache(&self) -> Map<u64, CachedAddr> {
        self.dns_cache@
    }

    /// The resolver.
    pub closed spec fn resolver(&self) -> DnsClient {
        self.dns
    }

    /// The ticket the next request gets.
    pub closed spec fn next_ticket(&self) -> usize {
        self.next_id
    }

    /// The resolver is consistent and every body being read is.
    pub open spec fn wf(&self) -> bool {
        &&& self.resolver().wf()
        &&& forall|i: int| 0 <= i < self.records().len() ==> rec_wf(#[trigger] self.records()[i])
    }

    /// An engine with no requests, an empty cache and a resolver whose
    /// socket will use `token`. Tickets start at `0`.
    pub fn new(token: usize) -> (r: Self)
        ensures
            r.wf(),
            r.records() == Seq::<InternalReq>::empty(),
            r.cache() == Map::<u64, CachedAddr>::empty(),
            r.next_ticket() == 0,
            r.resolver().spec_token() == token,
            r.resolver().queries() == Seq::<DnsQuery>::empty(),
            !r.resolver().socket_open(),
    {
        Client { dns: DnsClient::new(token), dns_cache: HashMap::new(), requests: Vec::new(), next_id: 0 }
    }

    /// The number of in-flight records.
    pub fn len(&self) -> (r: usize)
        ensures
            r == self.records().len(),
    {
        self.requests.len()
    }

    /// The token of the resolver's socket.
    pub fn dns_token(&self) -> (r: usize)
        ensures
            r == self.resolver().spec_token(),
    {
        self.dns.token()
    }

    /// The token of the record at `idx`.
    pub fn token_at(&self, idx: usize) -> (r: usize)
        requires
            idx < self.records().len(),
        ensures
            r == self.records()[idx as int].token,
    {
        self.requests[idx].token
    }

    /// Accepts a request made at `now`, to be connected under `token`: it
    /// gets the next ticket (wrapping). When the cache holds a fresh address
    /// for the host, the connection is to be opened at once and the record
    /// starts sending; no lookup is made. Otherwise the record waits for a
    /// lookup: an outstanding lookup of the same host that ends no sooner
    /// than this request's deadline is shared, else a new one is started.
    /// Either way the record then holds a connection or its lookup is
    /// outstanding.
    pub fn send(&mut self, now: u64, token: usize, request: &Request) -> (r: (ReqId, Setup))
        requires
            old(self).wf(),
            no_managed_header(request.headers@),
        ensures
            final(self).wf(),
            r.0.inner == old(self).next_ticket(),
            final(self).next_ticket() == (if old(self).next_ticket() == usize::MAX {
                0
            } else {
                (old(self).next_ticket() + 1) as usize
            }),
            final(self).cache() == old(self).cache(),
            final(self).records().len() == old(self).records().len() + 1,
            final(self).records().drop_last() == old(self).records(),
            final(self).records().last().id == r.0.inner,
            final(self).records().last().token == token,
            final(self).records().last().time_created == now,
            final(self).records().last().timeout == request.timeout,
            ({
                let key = host_hash(request.uri.host@);
                let rec = final(self).records().last();
                let secure = request.mode == Mode::Secure;
                if old(self).cache().contains_key(key) && is_fresh(old(self).cache()[key], now) {
                    &&& r.1 is Connect
                    &&& connect_matches(r.1->Connect_0, token, old(self).cache()[key].ip_addr, secure, request.uri.host@)
                    &&& rec.state is Sending
                    &&& rec.state->unsent@ == request_bytes(*request)
                    &&& final(self).resolver() == old(self).resolver()
                } else {
                    &&& rec.state is Resolving
                    &&& rec.state->body@ == request_bytes(*request)
                    &&& rec.state->host@ == request.uri.host@
                    &&& rec.state->secure == secure
                    &&& r.1 is Resolve
                    &&& if exists|i: int|
                        0 <= i < old(self).resolver().queries().len() && (#[trigger] old(self).resolver().queries()[i]).host@ == request.uri.host@ && crate::dns::covers(
                            old(self).resolver().queries()[i],
                            now,
                            request.timeout,
                        ) {
                        &&& r.1->Resolve_0 == SocketCommand::Keep
                        &&& final(self).resolver() == old(self).resolver()
                    } else {
                        &&& rec.state->dns_id.inner == old(self).resolver().next_id()
                        &&& final(self).resolver().queries().drop_last() == old(self).resolver().queries()
                        &&& final(self).resolver().queries().last().host@ == request.uri.host@
                        &&& !final(self).resolver().queries().last().sent
                        &&& r.1->Resolve_0 == (if !old(self).resolver().socket_open() {
                            SocketCommand::Open
                        } else if old(self).resolver().write_outdated() {
                            SocketCommand::Reregister
                        } else {
                            SocketCommand::Keep
                        })
                    }
                }
            }),
            final(self).records().last().state is Sending || (final(self).records().last().state is Resolving
                && exists|i: int|
                0 <= i < final(self).resolver().queries().len() && (#[trigger] final(self).resolver().queries()[i]).id == final(self).records().last().state->dns_id.inner),
    {
        let body = request.format();
        let id = self.next_id;
        self.next_id = self.next_id.wrapping_add(1);
        let secure = match request.mode {
            Mode::Secure => true,
            Mode::Plain => false,
        };
        let key = hash(request.uri.host);
        let cached: Option<u32> = match self.dns_cache.get(&key) {
            Some(c) => if !c.is_outdated(now) {
                Some(c.ip_addr)
            } else {
                None
            },
            None => None,
        };
        let (state, setup) = match cached {
            Some(addr) => {
                let to = ConnectTo {
                    token,
                    addr,
                    port: if secure { 443 } else { 80 },
                    secure,
                    server_name: request.uri.host.to_string(),
                };
                (Phase::Sending { unsent: body }, Setup::Connect(to))
            },
            None => {
                let (dns_id, cmd) = match self.dns.shared_lookup(request.uri.host, now, request.timeout) {
                    Some(dns_id) => (dns_id, SocketCommand::Keep),
                    None => {
                        let (dns_id, cmd) = self.dns.resolve(now, request.uri.host, request.timeout);
                        assert(self.dns.queries()[self.dns.queries().len() - 1].id == dns_id.inner);
                        (dns_id, cmd)
                    },
                };
                (
                    Phase::Resolving { body, dns_id, host: request.uri.host.to_string(), secure },
                    Setup::Resolve(cmd),
                )
            },
        };
        self.requests.push(InternalReq { id, token, time_created: now, timeout: request.timeout, state });
        assert(self.requests@.drop_last() =~= old(self).requests@);
        assert(forall|i: int| 0 <= i < old(self).records().len() ==> self.records()[i] == old(self).records()[i]);
        (ReqId { inner: id }, setup)
    }
}


fn phase_is_live(p: &Phase) -> (r: bool)
    ensures
        r == is_live(*p),
{
    match p {
        Phase::Done => false,
        Phase::Error => false,
        _ => true,
    }
}

fn phase_has_connection(p: &Phase) -> (r: bool)
    ensures
        r == has_connection(*p),
{
    match p {
        Phase::Sending { .. } => true,
        Phase::RecvHead { .. } => true,
        Phase::RecvBody { .. } => true,
        _ => false,
    }
}

/// The outcome of the first resolver answer for this lookup.
fn find_answer(resolved: &Vec<DnsResponse>, id: DnsId) -> (r: Option<DnsOutcome>)
    ensures
        r == first_answer(resolved@, id),
{
    let mut i: usize = 0;
    assert(resolved@.subrange(0, resolved@.len() as int) =~= resolved@);
    while i < resolved.len()
        invariant
            i <= resolved@.len(),
            first_answer(resolved@, id) == first_answer(resolved@.subrange(i as int, resolved@.len() as int), id),
        decreases resolved@.len() - i,
    {
        assert(resolved@.subrange(i as int, resolved@.len() as int).drop_first() =~= resolved@.subrange(
            i as int + 1,
            resolved@.len() as int,
        ));
        assert(resolved@.subrange(i as int, resolved@.len() as int)[0] == resolved@[i as int]);
        if resolved[i].id == id {
            return Some(resolved[i].outcome);
        }
        i = i + 1;
    }
    None
}

impl Client {
    /// The lookups that timed out at `now`, answered with `TimedOut`; see
    /// [`DnsClient::expire`].
    pub fn dns_expire(&mut self, now: u64) -> (r: (Vec<DnsResponse>, SocketCommand))
        requires
            old(self).wf(),
        ensures
            final(self).wf(),
            final(self).records() == old(self).records(),
            final(self).cache() == old(self).cache(),
            final(self).next_ticket() == old(self).next_ticket(),
            final(self).resolver().queries() == crate::dns::kept_queries(old(self).resolver().queries(), now),
            r.0@ == crate::dns::expired_responses(old(self).resolver().queries(), now),
            r.1 == crate::dns::close_if_idle(old(self).resolver().socket_open(), final(self).resolver().queries()),
    {
        let r = self.dns.expire(now);
        assert(self.records() == old(self).records());
        r
    }

    /// A writable event on the resolver's socket; see
    /// [`DnsClient::on_writable`]. Returns the packets to send, the error
    /// answers and the socket command.
    pub fn dns_writable(&mut self) -> (r: (Vec<Vec<u8>>, Vec<DnsResponse>, SocketCommand))
        requires
            old(self).wf(),
        ensures
            final(self).wf(),
            final(self).records() == old(self).records(),
            final(self).cache() == old(self).cache(),
            final(self).next_ticket() == old(self).next_ticket(),
            final(self).resolver().queries() == crate::dns::after_send(old(self).resolver().queries()),
            r.0@.map_values(|p: Vec<u8>| p@) == crate::dns::sent_packets(old(self).resolver().queries()),
            r.1@ == crate::dns::unsendable(old(self).resolver().queries()),
            r.2 == crate::dns::close_if_idle(old(self).resolver().socket_open(), final(self).resolver().queries()),
    {
        let r = self.dns.on_writable();
        assert(self.records() == old(self).records());
        r
    }

    /// A datagram read from the resolver's socket; see
    /// [`DnsClient::receive`].
    pub fn dns_receive(&mut self, datagram: &[u8]) -> (r: (Option<DnsResponse>, SocketCommand))
        requires
            old(self).wf(),
        ensures
            final(self).wf(),
            final(self).records() == old(self).records(),
            final(self).cache() == old(self).cache(),
            final(self).next_ticket() == old(self).next_ticket(),
            r.0 is Some <==> (crate::dns::datagram_response(datagram@) is Some && exists|i: int|
                0 <= i < old(self).resolver().queries().len() && (#[trigger] old(self).resolver().queries()[i]).id
                    == crate::dns::datagram_response(datagram@)->0.id.inner),
            r.0 is Some ==> r.0 == crate::dns::datagram_response(datagram@) && exists|i: int|
                crate::dns::first_with_id(old(self).resolver().queries(), r.0->0.id.inner, i)
                    && final(self).resolver().queries() == old(self).resolver().queries().remove(i),
            r.0 is None ==> final(self).resolver().queries() == old(self).resolver().queries(),
            r.1 == (if r.0 is Some {
                crate::dns::close_if_idle(old(self).resolver().socket_open(), final(self).resolver().queries())
            } else {
                SocketCommand::Keep
            }),
    {
        let r = self.dns.receive(datagram);
        assert(self.records() == old(self).records());
        r
    }

    /// Starts a pump for the record at `idx`: checks its deadline, then
    /// the resolver's answers of this pump. See [`begin_spec`].
    pub fn begin(&mut self, idx: usize, now: u64, resolved: &Vec<DnsResponse>) -> (r: (Vec<Response>, Action))
        requires
            old(self).wf(),
            idx < old(self).records().len(),
        ensures
            final(self).wf(),
            final(self).records() == old(self).records().update(idx as int, final(self).records()[idx as int]),
            final(self).resolver() == old(self).resolver(),
            final(self).next_ticket() == old(self).next_ticket(),
            begin_spec(
                old(self).records()[idx as int],
                final(self).records()[idx as int],
                now,
                resolved@,
                old(self).cache(),
                final(self).cache(),
                r.0@,
                r.1,
            ),
            run_stage(stage(old(self).records()[idx as int].state), r.0@) == Some(
                stage(final(self).records()[idx as int].state),
            ),
    {
        let mut rec = self.requests.remove(idx);
        let ghost old_rec = rec;
        let mut out: Vec<Response> = Vec::new();
        let act = if !phase_is_live(&rec.state) {
            Action::Skip
        } else if is_elapsed(rec.time_created, rec.timeout, now) {
            let conn = phase_has_connection(&rec.state);
            out = rec.end_with(ResponseState::TimedOut);
            if conn {
                Action::Deregister
            } else {
                Action::Skip
            }
        } else {
            let answer = match &rec.state {
                Phase::Resolving { dns_id, .. } => find_answer(resolved, *dns_id),
                _ => None,
            };
            match answer {
                None => Action::Nothing,
                Some(DnsOutcome::Unknown) => {
                    out = rec.end_with(ResponseState::UnknownHost);
                    Action::Skip
                },
                Some(DnsOutcome::TimedOut) => {
                    out = rec.end_with(ResponseState::TimedOut);
                    Action::Skip
                },
                Some(DnsOutcome::Error) => {
                    out = rec.end_with(ResponseState::Error);
                    Action::Skip
                },
                Some(DnsOutcome::Known { addr, ttl }) => {
                    let mut st = Phase::Error;
                    std::mem::swap(&mut st, &mut rec.state);
                    match st {
                        Phase::Resolving { body, dns_id: _, host, secure } => {
                            self.dns_cache.insert(
                                hash(host.as_str()),
                                CachedAddr { ip_addr: addr, time_created: now, ttl },
                            );
                            rec.state = Phase::Sending { unsent: body };
                            Action::Connect(
                                ConnectTo {
                                    token: rec.token,
                                    addr,
                                    port: if secure { 443 } else { 80 },
                                    secure,
                                    server_name: host,
                                },
                            )
                        },
                        _ => Action::Nothing,
                    }
                },
            }
        };
        assert(out@.len() == 0 ==> out@ =~= Seq::<Response>::empty());
        self.requests.insert(idx, rec);
        assert(self.requests@ =~= old(self).requests@.update(idx as int, rec));
        (out, act)
    }

    /// What a readiness event on `token` asks of the record at `idx`; see
    /// [`event_action`].
    pub fn on_event(&self, idx: usize, token: usize, readable: bool) -> (r: Action)
        requires
            idx < self.records().len(),
        ensures
            r == event_action(self.records()[idx as int], token, readable),
    {
        let rec = &self.requests[idx];
        match &rec.state {
            Phase::Done => Action::Skip,
            Phase::Error => Action::Skip,
            Phase::Sending { .. } => if rec.token == token {
                Action::Write
            } else {
                Action::Nothing
            },
            Phase::RecvHead { .. } => if rec.token == token && readable {
                Action::Read
            } else {
                Action::Nothing
            },
            Phase::RecvBody { .. } => if rec.token == token && readable {
                Action::Read
            } else {
                Action::Nothing
            },
            Phase::Resolving { .. } => Action::Nothing,
        }
    }

    /// The bytes the record at `idx` has still to write.
    pub fn unsent(&self, idx: usize) -> (r: &[u8])
        requires
            idx < self.records().len(),
            self.records()[idx as int].state is Sending,
        ensures
            r@ == self.records()[idx as int].state->unsent@,
    {
        match &self.requests[idx].state {
            Phase::Sending { unsent } => unsent.as_slice(),
            _ => &[],
        }
    }

    /// The record at `idx` wrote `n` of its unsent bytes. When all are
    /// written it starts reading the response head; otherwise the rest
    /// waits for the next writable event.
    pub fn wrote(&mut self, idx: usize, n: usize)
        requires
            old(self).wf(),
            idx < old(self).records().len(),
            old(self).records()[idx as int].state is Sending,
            n <= old(self).records()[idx as int].state->unsent@.len(),
        ensures
            final(self).wf(),
            final(self).records() == old(self).records().update(idx as int, final(self).records()[idx as int]),
            final(self).resolver() == old(self).resolver(),
            final(self).cache() == old(self).cache(),
            final(self).next_ticket() == old(self).next_ticket(),
            same_ticket(old(self).records()[idx as int], final(self).records()[idx as int]),
            ({
                let unsent = old(self).records()[idx as int].state->unsent@;
                let st = final(self).records()[idx as int].state;
                if n == unsent.len() {
                    st is RecvHead && st->buffer@ == Seq::<u8>::empty()
                } else {
                    st is Sending && st->unsent@ == unsent.subrange(n as int, unsent.len() as int)
                }
            }),
    {
        let mut rec = self.requests.remove(idx);
        let mut st = Phase::Error;
        std::mem::swap(&mut st, &mut rec.state);
        match st {
            Phase::Sending { mut unsent } => {
                if n == unsent.len() {
                    rec.state = Phase::RecvHead { buffer: Vec::new() };
                } else {
                    let rest = unsent.split_off(n);
                    rec.state = Phase::Sending { unsent: rest };
                }
            },
            other => {
                rec.state = other;
            },
        }
        self.requests.insert(idx, rec);
        assert(self.requests@ =~= old(self).requests@.update(idx as int, rec));
    }

    /// Bytes arrived on the connection of the record at `idx`; see
    /// [`received_spec`]. The body handed out stays the body of every
    /// byte that arrived after the head.
    pub fn received(&mut self, idx: usize, bytes: &[u8], eof: bool) -> (r: (Vec<Response>, Action))
        requires
            old(self).wf(),
            idx < old(self).records().len(),
            old(self).records()[idx as int].state is RecvHead || old(self).records()[idx as int].state is RecvBody,
        ensures
            final(self).wf(),
            final(self).records() == old(self).records().update(idx as int, final(self).records()[idx as int]),
            final(self).resolver() == old(self).resolver(),
            final(self).cache() == old(self).cache(),
            final(self).next_ticket() == old(self).next_ticket(),
            received_spec(old(self).records()[idx as int], final(self).records()[idx as int], bytes@, eof, r.0@, r.1),
            run_stage(stage(old(self).records()[idx as int].state), r.0@) == Some(
                stage(final(self).records()[idx as int].state),
            ),
    {
        let mut rec = self.requests.remove(idx);
        let r = rec.received(bytes, eof);
        self.requests.insert(idx, rec);
        assert(self.requests@ =~= old(self).requests@.update(idx as int, rec));
        r
    }

    /// Ends a pump: drops the records that ended, keeping the order of the
    /// others. Every record left is live.
    pub fn sweep(&mut self)
        requires
            old(self).wf(),
        ensures
            final(self).wf(),
            final(self).records() == live_records(old(self).records()),
            forall|i: int| 0 <= i < final(self).records().len() ==> is_live(#[trigger] final(self).records()[i].state),
            final(self).resolver() == old(self).resolver(),
            final(self).cache() == old(self).cache(),
            final(self).next_ticket() == old(self).next_ticket(),
    {
        let mut rest: Vec<InternalReq> = Vec::new();
        std::mem::swap(&mut rest, &mut self.requests);
        let ghost orig = rest@;
        assert(forall|i: int| 0 <= i < orig.len() ==> rec_wf(#[trigger] orig[i])) by {
            assert(forall|i: int| 0 <= i < orig.len() ==> orig[i] == old(self).records()[i]);
        }
        let ghost mut j: int = 0;
        while rest.len() > 0
            invariant
                0 <= j <= orig.len(),
                rest@ == orig.subrange(j, orig.len() as int),
                self.requests@ == live_records(orig.subrange(0, j)),
                forall|i: int| 0 <= i < orig.len() ==> rec_wf(#[trigger] orig[i]),
                forall|i: int| 0 <= i < self.requests@.len() ==> rec_wf(#[trigger] self.requests@[i]),
                forall|i: int| 0 <= i < self.requests@.len() ==> is_live(#[trigger] self.requests@[i].state),
                self.dns == old(self).dns,
                self.dns_cache@ == old(self).dns_cache@,
                self.next_id == old(self).next_id,
            decreases rest@.len(),
        {
            let rec = rest.remove(0);
            assert(orig.subrange(0, j + 1).drop_last() =~= orig.subrange(0, j));
            assert(orig.subrange(0, j + 1).last() == rec);
            assert(orig[j] == rec);
            if !rec.is_finished() {
                self.requests.push(rec);
            }
            proof {
                j = j + 1;
            }
            assert(rest@ =~= orig.subrange(j, orig.len() as int));
        }
        assert(orig.subrange(0, j) =~= orig);
    }

    /// The least time left before any record's deadline at `now`, `None`
    /// when no record has one. Waiting for events no longer than this
    /// delivers every `TimedOut` on time.
    pub fn timeout(&self, now: u64) -> (r: Option<u64>)
        ensures
            r == earliest_deadline(self.records(), now),
    {
        let mut best: Option<u64> = None;
        let mut i: usize = 0;
        while i < self.requests.len()
            invariant
                i <= self.requests@.len(),
                best == earliest_deadline(self.requests@.subrange(0, i as int), now),
            decreases self.requests@.len() - i,
        {
            let rec = &self.requests[i];
            let left = match rec.timeout {
                None => None,
                Some(t) => {
                    let elapsed: u64 = if now >= rec.time_created {
                        now - rec.time_created
                    } else {
                        0
                    };
                    Some(if elapsed >= t { 0 } else { t - elapsed })
                },
            };
            best = match (best, left) {
                (None, _) => left,
                (_, None) => best,
                (Some(x), Some(y)) => Some(if x <= y { x } else { y }),
            };
            assert(self.requests@.subrange(0, i as int + 1).drop_last() =~= self.requests@.subrange(0, i as int));
            i = i + 1;
        }
        assert(self.requests@.subrange(0, i as int) =~= self.requests@);
        best
    }
}


/// As time passes with no new request, the least time left before a
/// deadline never grows, and while it is above zero it shrinks. The clock
/// is monotone: every record was created at or before `t1`.
pub proof fn lemma_timeout_monotone(rs: Seq<InternalReq>, t1: u64, t2: u64)
    requires
        t1 <= t2,
        forall|i: int| 0 <= i < rs.len() ==> (#[trigger] rs[i]).time_created <= t1,
    ensures
        earliest_deadline(rs, t1) is Some == earliest_deadline(rs, t2) is Some,
        earliest_deadline(rs, t1) is Some ==> earliest_deadline(rs, t2)->0 <= earliest_deadline(rs, t1)->0,
        earliest_deadline(rs, t1) is Some && t1 < t2 && earliest_deadline(rs, t1)->0 > 0
            ==> earliest_deadline(rs, t2)->0 < earliest_deadline(rs, t1)->0,
    decreases rs.len(),
{
    if rs.len() > 0 {
        let init = rs.drop_last();
        assert forall|i: int| 0 <= i < init.len() implies (#[trigger] init[i]).time_created <= t1 by {
            assert(init[i] == rs[i]);
        }
        lemma_timeout_monotone(init, t1, t2);
        assert(rs.last() == rs[rs.len() - 1]);
    }
}

/// Once a lookup answered with an address, the host's cache entry is fresh
/// for the answer's TTL, so a request to that host sent within it
/// connects at once and starts no lookup (see [`Client::send`]).
pub proof fn lemma_answer_cached(
    old_rec: InternalReq,
    new_rec: InternalReq,
    t: u64,
    resolved: Seq<DnsResponse>,
    cache: Map<u64, CachedAddr>,
    new_cache: Map<u64, CachedAddr>,
    rs: Seq<Response>,
    act: Action,
    now: u64,
)
    requires
        begin_spec(old_rec, new_rec, t, resolved, cache, new_cache, rs, act),
        old_rec.state is Resolving,
        new_rec.state is Sending,
        t <= now,
    ensures
        first_answer(resolved, old_rec.state->dns_id) is Some,
        first_answer(resolved, old_rec.state->dns_id)->0 is Known,
        ({
            let key = host_hash(old_rec.state->host@);
            let ttl = first_answer(resolved, old_rec.state->dns_id)->0->ttl;
            &&& new_cache.contains_key(key)
            &&& now as int - t as int <= ttl as int ==> is_fresh(new_cache[key], now)
        }),
{
}


/// When a body step completes a response, the data handed out over all
/// its steps is the whole body of the bytes that arrived after the head:
/// exactly the advertised number of bytes, or, for a chunked body, the
/// decoded body of a stream that reached its last chunk.
pub proof fn lemma_complete_body(rec: InternalReq, bytes: Seq<u8>, eof: bool)
    requires
        rec_wf(rec),
        rec.state is RecvBody,
        body_outcome(rec.state->bytes_read, rec.state->content_length, rec.state->framing, bytes, eof) is Done,
    ensures
        ({
            let st = rec.state;
            let whole = body_of(st->content_length, st->framing, st->stream@ + bytes);
            &&& st->delivered@ + body_data(st->bytes_read, st->content_length, st->framing, bytes) == whole
            &&& st->framing is Length ==> whole.len() == st->content_length
            &&& st->framing is Chunked ==> chunked_phase(st->stream@ + bytes) is Done
        }),
{
    let st = rec.state;
    crate::body::lemma_step_extends_body(st->bytes_read, st->content_length, st->framing, st->stream@, bytes);
}

} // verus!
