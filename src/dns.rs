//! The address resolver: one UDP socket shared by every outstanding name
//! lookup, each a query with a 16-bit id. The resolver decides; the caller
//! owns the socket, performs the socket commands the resolver returns and
//! hands it the datagrams that arrive.

use vstd::prelude::*;
use vstd::utf8::encode_utf8;

verus! {

/// The packet `dns_parser` builds for an `A` query with recursion desired,
/// `None` when the packet would be truncated.
pub uninterp spec fn dns_query_of(id: u16, host: Seq<char>) -> Option<Seq<u8>>;

/// What `dns_parser` reads from a reply: the response code and, for each
/// answer in order, its IPv4 address if it is an `A` record, and its TTL in
/// seconds; `None` when the packet is malformed.
pub uninterp spec fn dns_reply_of(packet: Seq<u8>) -> Option<(u8, Seq<(Option<u32>, u32)>)>;

/// Length of the run of non-dot bytes that ends just before index `k`.
pub open spec fn label_run(b: Seq<u8>, k: int) -> nat
    decreases k,
{
    if k <= 0 || b[k - 1] == 46 {
        0
    } else {
        label_run(b, k - 1) + 1
    }
}

/// Every dot-separated label of the name is shorter than 63 bytes.
pub open spec fn labels_short(b: Seq<u8>) -> bool {
    forall|k: int| 0 <= k <= b.len() ==> #[trigger] label_run(b, k) < 63
}

/// Relies on `dns_parser::Builder`: `new_query`, `add_question` for an
/// `A`/`IN` question and `build`, which is `Err` when the packet is
/// truncated. `add_question` panics on a label of 63 bytes or more.
#[verifier::external_body]
fn query_packet(id: u16, host: &str) -> (r: Option<Vec<u8>>)
    requires
        labels_short(encode_utf8(host@)),
    ensures
        r is Some <==> dns_query_of(id, host@) is Some,
        r is Some ==> r->0@ == dns_query_of(id, host@)->0,
{
    let mut builder = dns_parser::Builder::new_query(id, true);
    builder.add_question(host, false, dns_parser::QueryType::A, dns_parser::QueryClass::IN);
    builder.build().ok()
}

/// Relies on `dns_parser::Packet::parse`, which reads the response code
/// from the low four bits of the fourth byte of the header.
#[verifier::external_body]
fn parse_reply(packet: &[u8]) -> (r: Option<DnsReply>)
    ensures
        r is None <==> dns_reply_of(packet@) is None,
        r is Some ==> dns_reply_of(packet@) == Some((r->0.rcode, r->0.answers@)),
        r is Some ==> packet@.len() >= 12 && r->0.rcode == packet@[3] & 15,
{
    match dns_parser::Packet::parse(packet) {
        Err(_) => None,
        Ok(p) => Some(DnsReply {
            rcode: p.header.response_code.into(),
            answers: p.answers.iter().map(|a| (match a.data {
                dns_parser::RData::A(rec) => Some(u32::from(rec.0)),
                _ => None,
            }, a.ttl)).collect(),
        }),
    }
}

/// A reply as `dns_parser` reads it: the response code and, per answer,
/// the IPv4 address of an `A` record and the TTL in seconds.
pub struct DnsReply {
    pub rcode: u8,
    pub answers: Vec<(Option<u32>, u32)>,
}

/// The id of a lookup.
#[derive(Clone, Copy, Debug, PartialEq, Eq, Structural)]
pub struct DnsId {
    pub inner: u16,
}

/// How a lookup ended. An address is an IPv4 address as a big-endian
/// number; a TTL is in milliseconds.
#[derive(Clone, Copy, Debug, PartialEq, Eq, Structural)]
pub enum DnsOutcome {
    Known { addr: u32, ttl: u64 },
    Unknown,
    Error,
    TimedOut,
}

/// The end of one lookup.
#[derive(Clone, Copy, Debug, PartialEq, Eq, Structural)]
pub struct DnsResponse {
    pub id: DnsId,
    pub outcome: DnsOutcome,
}

/// What the caller must do with the resolver's socket.
#[derive(Clone, Copy, Debug, PartialEq, Eq, Structural)]
pub enum SocketCommand {
    /// Nothing.
    Keep,
    /// Bind a UDP socket, connect it to the upstream resolver and register
    /// it for reading and writing under the resolver's token.
    Open,
    /// Register the socket again for reading and writing, so that a new
    /// writable event comes.
    Reregister,
    /// Deregister the socket and drop it.
    Close,
}

/// One outstanding lookup.
#[derive(Clone, Debug)]
pub struct DnsQuery {
    pub id: u16,
    pub sent: bool,
    pub host: String,
    pub time_created: u64,
    pub timeout: Option<u64>,
}

/// The deadline of something created at `created` with this timeout has
/// passed at `now` (all in milliseconds).
pub open spec fn deadline_passed(created: u64, timeout: Option<u64>, now: u64) -> bool {
    timeout is Some && now as int - created as int >= timeout->0 as int
}

/// Whether the deadline has passed.
pub fn is_elapsed(created: u64, timeout: Option<u64>, now: u64) -> (r: bool)
    ensures
        r == deadline_passed(created, timeout, now),
{
    match timeout {
        None => false,
        Some(t) => now >= created && now - created >= t,
    }
}

/// The first answer that is an `A` record: its address and TTL.
pub open spec fn first_a(answers: Seq<(Option<u32>, u32)>) -> Option<(u32, u32)>
    decreases answers.len(),
{
    if answers.len() == 0 {
        None
    } else if answers[0].0 is Some {
        Some((answers[0].0->0, answers[0].1))
    } else {
        first_a(answers.drop_first())
    }
}

/// The outcome a reply with this response code and these answers gives:
/// `NOERROR` with an `A` answer gives its address and TTL, `NOERROR`
/// without one an error, `NXDOMAIN` an unknown host, any other code an
/// error.
pub open spec fn reply_outcome(rcode: u8, answers: Seq<(Option<u32>, u32)>) -> DnsOutcome {
    if rcode == 0 {
        match first_a(answers) {
            Some(a) => DnsOutcome::Known { addr: a.0, ttl: (a.1 as u64 * 1000) as u64 },
            None => DnsOutcome::Error,
        }
    } else if rcode == 3 {
        DnsOutcome::Unknown
    } else {
        DnsOutcome::Error
    }
}

/// The outcome of a reply with this response code and these answers.
pub fn outcome_of(rcode: u8, answers: &Vec<(Option<u32>, u32)>) -> (r: DnsOutcome)
    ensures
        r == reply_outcome(rcode, answers@),
{
    if rcode == 3 {
        return DnsOutcome::Unknown;
    }
    if rcode != 0 {
        return DnsOutcome::Error;
    }
    let mut i: usize = 0;
    assert(answers@.subrange(0, answers@.len() as int) =~= answers@);
    while i < answers.len()
        invariant
            rcode == 0,
            i <= answers@.len(),
            first_a(answers@) == first_a(answers@.subrange(i as int, answers@.len() as int)),
        decreases answers@.len() - i,
    {
        assert(answers@.subrange(i as int, answers@.len() as int).drop_first() =~= answers@.subrange(
            i as int + 1,
            answers@.len() as int,
        ));
        assert(answers@.subrange(i as int, answers@.len() as int)[0] == answers@[i as int]);
        if let Some(addr) = answers[i].0 {
            let ttl: u64 = answers[i].1 as u64 * 1000;
            return DnsOutcome::Known { addr, ttl };
        }
        i = i + 1;
    }
    DnsOutcome::Error
}

/// The id a datagram carries in its first two bytes, if it has them.
pub open spec fn datagram_id(d: Seq<u8>) -> Option<u16> {
    if d.len() >= 2 {
        Some((d[0] as int * 256 + d[1] as int) as u16)
    } else {
        None
    }
}

/// What a reply datagram says: the id it answers and the outcome, or
/// nothing when not even the id can be read. A packet that `dns_parser`
/// cannot read is an error for its id.
pub open spec fn datagram_response(d: Seq<u8>) -> Option<DnsResponse> {
    match datagram_id(d) {
        None => None,
        Some(id) => Some(
            DnsResponse {
                id: DnsId { inner: id },
                outcome: match dns_reply_of(d) {
                    None => DnsOutcome::Error,
                    Some(rep) => reply_outcome(rep.0, rep.1),
                },
            },
        ),
    }
}

/// Reads a reply datagram.
pub fn parse_from_packet(d: &[u8]) -> (r: Option<DnsResponse>)
    ensures
        r == datagram_response(d@),
{
    if d.len() < 2 {
        return None;
    }
    let id: u16 = (d[0] as u16) * 256 + d[1] as u16;
    let outcome = match parse_reply(d) {
        None => DnsOutcome::Error,
        Some(rep) => outcome_of(rep.rcode, &rep.answers),
    };
    Some(DnsResponse { id: DnsId { inner: id }, outcome })
}

/// Checks that every label of a host name is shorter than 63 bytes.
pub fn host_fits(host: &str) -> (r: bool)
    ensures
        r == labels_short(encode_utf8(host@)),
{
    let b = host.as_bytes();
    let n = b.len();
    let mut run: usize = 0;
    let mut i: usize = 0;
    while i < n
        invariant
            n == b@.len(),
            b@ == encode_utf8(host@),
            i <= n,
            run == label_run(b@, i as int),
            forall|k: int| 0 <= k <= i ==> #[trigger] label_run(b@, k) < 63,
        decreases n - i,
    {
        if b[i] == 46 {
            run = 0;
        } else {
            run = run + 1;
        }
        if run >= 63 {
            assert(label_run(b@, i as int + 1) >= 63);
            return false;
        }
        i = i + 1;
    }
    true
}


/// The queries whose deadline has not passed at `now`, in order.
pub open spec fn kept_queries(qs: Seq<DnsQuery>, now: u64) -> Seq<DnsQuery>
    decreases qs.len(),
{
    if qs.len() == 0 {
        Seq::empty()
    } else if deadline_passed(qs.last().time_created, qs.last().timeout, now) {
        kept_queries(qs.drop_last(), now)
    } else {
        kept_queries(qs.drop_last(), now).push(qs.last())
    }
}

/// A `TimedOut` response for each query whose deadline has passed at
/// `now`, in order.
pub open spec fn expired_responses(qs: Seq<DnsQuery>, now: u64) -> Seq<DnsResponse>
    decreases qs.len(),
{
    if qs.len() == 0 {
        Seq::empty()
    } else if deadline_passed(qs.last().time_created, qs.last().timeout, now) {
        expired_responses(qs.drop_last(), now).push(
            DnsResponse { id: DnsId { inner: qs.last().id }, outcome: DnsOutcome::TimedOut },
        )
    } else {
        expired_responses(qs.drop_last(), now)
    }
}

/// The packet a query is sent as, if it is still to be sent and a packet
/// can be built for it.
pub open spec fn packet_for(q: DnsQuery) -> Option<Seq<u8>> {
    if labels_short(encode_utf8(q.host@)) {
        dns_query_of(q.id, q.host@)
    } else {
        None
    }
}

/// The queries after a send pass: those to send that have a packet are now
/// sent, those to send that have none are dropped, the others stay.
pub open spec fn after_send(qs: Seq<DnsQuery>) -> Seq<DnsQuery>
    decreases qs.len(),
{
    if qs.len() == 0 {
        Seq::empty()
    } else {
        let q = qs.last();
        let rest = after_send(qs.drop_last());
        if q.sent {
            rest.push(q)
        } else if packet_for(q) is Some {
            rest.push(DnsQuery { sent: true, ..q })
        } else {
            rest
        }
    }
}

/// The packets a send pass sends, in order.
pub open spec fn sent_packets(qs: Seq<DnsQuery>) -> Seq<Seq<u8>>
    decreases qs.len(),
{
    if qs.len() == 0 {
        Seq::empty()
    } else {
        let q = qs.last();
        let rest = sent_packets(qs.drop_last());
        if !q.sent && packet_for(q) is Some {
            rest.push(packet_for(q)->0)
        } else {
            rest
        }
    }
}

/// An `Error` response for each query to send that has no packet, in
/// order.
pub open spec fn unsendable(qs: Seq<DnsQuery>) -> Seq<DnsResponse>
    decreases qs.len(),
{
    if qs.len() == 0 {
        Seq::empty()
    } else {
        let q = qs.last();
        let rest = unsendable(qs.drop_last());
        if !q.sent && packet_for(q) is None {
            rest.push(DnsResponse { id: DnsId { inner: q.id }, outcome: DnsOutcome::Error })
        } else {
            rest
        }
    }
}

/// The first query with this id, if any.
pub open spec fn first_with_id(qs: Seq<DnsQuery>, id: u16, i: int) -> bool {
    0 <= i < qs.len() && qs[i].id == id && forall|j: int| 0 <= j < i ==> (#[trigger] qs[j]).id != id
}

/// The resolver: the outstanding lookups, the id the next one gets, and
/// whether the caller holds a socket for it.
pub struct DnsClient {
    token: usize,
    socket_open: bool,
    write_outdated: bool,
    requests: Vec<DnsQuery>,
    next_id: u16,
}

/// The socket command after the set of queries changed: close the socket
/// when the last query went.
pub open spec fn close_if_idle(was_open: bool, qs: Seq<DnsQuery>) -> SocketCommand {
    if was_open && qs.len() == 0 {
        SocketCommand::Close
    } else {
        SocketCommand::Keep
    }
}

impl DnsClient {
    /// The outstanding lookups, oldest first.
    pub closed spec fn queries(&self) -> Seq<DnsQuery> {
        self.requests@
    }

    /// The poller token of the resolver's socket.
    pub closed spec fn spec_token(&self) -> usize {
        self.token
    }

    /// The poller token of the resolver's socket.
    pub fn token(&self) -> (r: usize)
        ensures
            r == self.spec_token(),
    {
        self.token
    }

    /// Whether the caller holds an open, registered socket.
    pub closed spec fn socket_open(&self) -> bool {
        self.socket_open
    }

    /// Whether a writable event came with nothing to send, so that the
    /// socket must be registered again before a new query can be sent.
    pub closed spec fn write_outdated(&self) -> bool {
        self.write_outdated
    }

    /// The id the next lookup gets.
    pub closed spec fn next_id(&self) -> u16 {
        self.next_id
    }

    /// Lookups are only outstanding while the socket is open.
    pub closed spec fn wf(&self) -> bool {
        self.requests@.len() > 0 ==> self.socket_open
    }

    /// A resolver with no socket and no lookups; ids start at `0`.
    pub fn new(token: usize) -> (r: Self)
        ensures
            r.wf(),
            r.spec_token() == token,
            r.queries() == Seq::<DnsQuery>::empty(),
            !r.socket_open(),
            !r.write_outdated(),
            r.next_id() == 0,
    {
        DnsClient { token, socket_open: false, write_outdated: false, requests: Vec::new(), next_id: 0 }
    }

    /// Starts a lookup of `host`: it gets the next id (wrapping) and waits
    /// to be sent. Returns the id and what to do with the socket: open it
    /// when there is none, register it again when a writable event was
    /// spent with nothing to send.
    pub fn resolve(&mut self, now: u64, host: &str, timeout: Option<u64>) -> (r: (DnsId, SocketCommand))
        requires
            old(self).wf(),
        ensures
            final(self).wf(),
            final(self).spec_token() == old(self).spec_token(),
            r.0.inner == old(self).next_id(),
            final(self).next_id() == (if old(self).next_id() == u16::MAX {
                0
            } else {
                (old(self).next_id() + 1) as u16
            }),
            r.1 == (if !old(self).socket_open() {
                SocketCommand::Open
            } else if old(self).write_outdated() {
                SocketCommand::Reregister
            } else {
                SocketCommand::Keep
            }),
            final(self).socket_open(),
            !final(self).write_outdated(),
            final(self).queries().len() == old(self).queries().len() + 1,
            final(self).queries().drop_last() == old(self).queries(),
            final(self).queries().last().id == r.0.inner,
            !final(self).queries().last().sent,
            final(self).queries().last().host@ == host@,
            final(self).queries().last().time_created == now,
            final(self).queries().last().timeout == timeout,
    {
        let cmd = if !self.socket_open {
            SocketCommand::Open
        } else if self.write_outdated {
            SocketCommand::Reregister
        } else {
            SocketCommand::Keep
        };
        self.socket_open = true;
        self.write_outdated = false;
        let id = self.next_id;
        self.next_id = self.next_id.wrapping_add(1);
        self.requests.push(
            DnsQuery { id, sent: false, host: host.to_string(), time_created: now, timeout },
        );
        assert(self.requests@.drop_last() =~= old(self).requests@);
        (DnsId { inner: id }, cmd)
    }

    /// Drops the lookups whose deadline has passed at `now`, answering each
    /// with `TimedOut`; closes the socket when none is left.
    pub fn expire(&mut self, now: u64) -> (r: (Vec<DnsResponse>, SocketCommand))
        requires
            old(self).wf(),
        ensures
            final(self).wf(),
            final(self).spec_token() == old(self).spec_token(),
            final(self).next_id() == old(self).next_id(),
            final(self).write_outdated() == old(self).write_outdated(),
            final(self).queries() == kept_queries(old(self).queries(), now),
            r.0@ == expired_responses(old(self).queries(), now),
            r.1 == close_if_idle(old(self).socket_open(), final(self).queries()),
            final(self).socket_open() == (old(self).socket_open() && r.1 != SocketCommand::Close),
    {
        let mut rest: Vec<DnsQuery> = Vec::new();
        std::mem::swap(&mut rest, &mut self.requests);
        let ghost orig = rest@;
        let mut out: Vec<DnsResponse> = Vec::new();
        let ghost mut j: int = 0;
        while rest.len() > 0
            invariant
                self.token == old(self).token,
                self.next_id == old(self).next_id,
                self.socket_open == old(self).socket_open,
                self.write_outdated == old(self).write_outdated,
                orig.len() > 0 ==> self.socket_open,
                0 <= j <= orig.len(),
                rest@ == orig.subrange(j, orig.len() as int),
                self.requests@ == kept_queries(orig.subrange(0, j), now),
                out@ == expired_responses(orig.subrange(0, j), now),
            decreases rest@.len(),
        {
            let q = rest.remove(0);
            assert(orig.subrange(0, j + 1).drop_last() =~= orig.subrange(0, j));
            assert(orig.subrange(0, j + 1).last() == q);
            if is_elapsed(q.time_created, q.timeout, now) {
                out.push(DnsResponse { id: DnsId { inner: q.id }, outcome: DnsOutcome::TimedOut });
            } else {
                self.requests.push(q);
            }
            proof {
                j = j + 1;
            }
            assert(rest@ =~= orig.subrange(j, orig.len() as int));
        }
        assert(orig.subrange(0, j) =~= orig);
        let cmd = if self.socket_open && self.requests.len() == 0 {
            self.socket_open = false;
            SocketCommand::Close
        } else {
            SocketCommand::Keep
        };
        (out, cmd)
    }

    /// A writable event on the socket: builds the packet of every lookup
    /// still to be sent and marks it sent. A lookup whose packet cannot be
    /// built is dropped and answered with `Error`. When nothing was sent the
    /// socket must be registered again before the next lookup. Returns the
    /// packets to send, in order, the error answers, and what to do with the
    /// socket.
    pub fn on_writable(&mut self) -> (r: (Vec<Vec<u8>>, Vec<DnsResponse>, SocketCommand))
        requires
            old(self).wf(),
        ensures
            final(self).wf(),
            final(self).spec_token() == old(self).spec_token(),
            final(self).next_id() == old(self).next_id(),
            final(self).queries() == after_send(old(self).queries()),
            r.0@.map_values(|p: Vec<u8>| p@) == sent_packets(old(self).queries()),
            r.1@ == unsendable(old(self).queries()),
            final(self).write_outdated() == (r.0@.len() == 0),
            r.2 == close_if_idle(old(self).socket_open(), final(self).queries()),
            final(self).socket_open() == (old(self).socket_open() && r.2 != SocketCommand::Close),
    {
        let mut rest: Vec<DnsQuery> = Vec::new();
        std::mem::swap(&mut rest, &mut self.requests);
        let ghost orig = rest@;
        let mut packets: Vec<Vec<u8>> = Vec::new();
        let mut errors: Vec<DnsResponse> = Vec::new();
        let ghost mut j: int = 0;
        while rest.len() > 0
            invariant
                self.token == old(self).token,
                self.next_id == old(self).next_id,
                self.socket_open == old(self).socket_open,
                self.write_outdated == old(self).write_outdated,
                orig.len() > 0 ==> self.socket_open,
                0 <= j <= orig.len(),
                rest@ == orig.subrange(j, orig.len() as int),
                self.requests@ == after_send(orig.subrange(0, j)),
                packets@.map_values(|p: Vec<u8>| p@) == sent_packets(orig.subrange(0, j)),
                errors@ == unsendable(orig.subrange(0, j)),
            decreases rest@.len(),
        {
            let mut q = rest.remove(0);
            assert(orig.subrange(0, j + 1).drop_last() =~= orig.subrange(0, j));
            assert(orig.subrange(0, j + 1).last() == q);
            let ghost before = packets@;
            if q.sent {
                self.requests.push(q);
            } else {
                let packet = if host_fits(q.host.as_str()) {
                    query_packet(q.id, q.host.as_str())
                } else {
                    None
                };
                match packet {
                    Some(p) => {
                        packets.push(p);
                        assert(packets@.map_values(|p: Vec<u8>| p@) =~= before.map_values(
                            |p: Vec<u8>| p@,
                        ).push(packet_for(q)->0));
                        q.sent = true;
                        self.requests.push(q);
                    },
                    None => {
                        errors.push(DnsResponse { id: DnsId { inner: q.id }, outcome: DnsOutcome::Error });
                    },
                }
            }
            proof {
                j = j + 1;
            }
            assert(rest@ =~= orig.subrange(j, orig.len() as int));
        }
        assert(orig.subrange(0, j) =~= orig);
        self.write_outdated = packets.len() == 0;
        let cmd = if self.socket_open && self.requests.len() == 0 {
            self.socket_open = false;
            SocketCommand::Close
        } else {
            SocketCommand::Keep
        };
        (packets, errors, cmd)
    }

    /// A datagram read from the socket. When it answers an outstanding
    /// lookup, that lookup ends with the datagram's outcome; when that was
    /// the last one the socket is closed and the caller stops reading it.
    /// A datagram too short to carry an id, or answering no outstanding
    /// lookup, is dropped.
    pub fn receive(&mut self, datagram: &[u8]) -> (r: (Option<DnsResponse>, SocketCommand))
        requires
            old(self).wf(),
        ensures
            final(self).wf(),
            final(self).spec_token() == old(self).spec_token(),
            final(self).next_id() == old(self).next_id(),
            final(self).write_outdated() == old(self).write_outdated(),
            r.0 is Some <==> (datagram_response(datagram@) is Some && exists|i: int|
                0 <= i < old(self).queries().len() && (#[trigger] old(self).queries()[i]).id
                    == datagram_response(datagram@)->0.id.inner),
            r.0 is Some ==> r.0 == datagram_response(datagram@) && exists|i: int|
                first_with_id(old(self).queries(), r.0->0.id.inner, i) && final(self).queries()
                    == old(self).queries().remove(i),
            r.0 is None ==> final(self).queries() == old(self).queries(),
            r.1 == (if r.0 is Some {
                close_if_idle(old(self).socket_open(), final(self).queries())
            } else {
                SocketCommand::Keep
            }),
            final(self).socket_open() == (old(self).socket_open() && r.1 != SocketCommand::Close),
    {
        let resp = match parse_from_packet(datagram) {
            None => {
                return (None, SocketCommand::Keep);
            },
            Some(resp) => resp,
        };
        let mut i: usize = 0;
        while i < self.requests.len()
            invariant
                self.requests@ == old(self).requests@,
                *self == *old(self),
                self.wf(),
                resp == datagram_response(datagram@)->0,
                datagram_response(datagram@) is Some,
                i <= self.requests@.len(),
                forall|j: int| 0 <= j < i ==> (#[trigger] self.requests@[j]).id != resp.id.inner,
            decreases self.requests@.len() - i,
        {
            if self.requests[i].id == resp.id.inner {
                assert(old(self).queries()[i as int].id == resp.id.inner);
                let _q = self.requests.remove(i);
                assert(first_with_id(old(self).queries(), resp.id.inner, i as int));
                let cmd = if self.socket_open && self.requests.len() == 0 {
                    self.socket_open = false;
                    SocketCommand::Close
                } else {
                    SocketCommand::Keep
                };
                return (Some(resp), cmd);
            }
            i = i + 1;
        }
        (None, SocketCommand::Keep)
    }
}


/// A lookup still to end no sooner than a request created at `now` with
/// this timeout may wait for it, so that request can share it.
pub open spec fn covers(q: DnsQuery, now: u64, timeout: Option<u64>) -> bool {
    q.timeout is None || (timeout is Some && q.time_created as int + q.timeout->0 as int
        >= now as int + timeout->0 as int)
}

impl DnsClient {
    /// An outstanding lookup of `host` that a request created at `now`
    /// with this timeout can share, if there is one.
    pub fn shared_lookup(&self, host: &str, now: u64, timeout: Option<u64>) -> (r: Option<DnsId>)
        ensures
            r is Some ==> exists|i: int|
                0 <= i < self.queries().len() && (#[trigger] self.queries()[i]).id == r->0.inner
                    && self.queries()[i].host@ == host@ && covers(self.queries()[i], now, timeout),
            r is None ==> forall|i: int|
                0 <= i < self.queries().len() ==> !((#[trigger] self.queries()[i]).host@ == host@
                    && covers(self.queries()[i], now, timeout)),
    {
        let mut i: usize = 0;
        while i < self.requests.len()
            invariant
                i <= self.requests@.len(),
                forall|j: int|
                    0 <= j < i ==> !((#[trigger] self.requests@[j]).host@ == host@ && covers(
                        self.requests@[j],
                        now,
                        timeout,
                    )),
            decreases self.requests@.len() - i,
        {
            let q = &self.requests[i];
            let covered = match q.timeout {
                None => true,
                Some(qt) => match timeout {
                    None => false,
                    Some(t) => q.time_created as u128 + qt as u128 >= now as u128 + t as u128,
                },
            };
            if covered && crate::util::str_eq(q.host.as_str(), host) {
                return Some(DnsId { inner: q.id });
            }
            i = i + 1;
        }
        None
    }
}

} // verus!
