//! The transport: records, connections and what they may hold in memory.
//!
//! Both sides of an RPC are bounded for its full wire lifetime. A request holds
//! its place and its byte credits until its reply has reached the socket, or has
//! been discarded after the writer failed.
use crate::rpcwire::fragment;
use crate::text::{decimal, push_decimal};
use crate::xdr::{parse_u32, u32_round_trip, xdr_u32, zeros};
use std::collections::TryReserveError;
use vstd::prelude::*;
use vstd::string::StringExecFns;

verus! {

/// How many requests of one connection are served at a time.
pub const MAX_INFLIGHT_REQUESTS: usize = 32;

/// The largest RPC record, and so the largest reply.
pub const MAX_RPC_RECORD_BYTES: usize = 2097152;

/// The wire bytes that one connection may hold.
pub const CONNECTION_INFLIGHT_BYTES: usize = 67108864;

/// The wire bytes that all connections together may hold.
pub const GLOBAL_INFLIGHT_BYTES: usize = 268435456;

/// What a connection may hold.
#[derive(Clone, Copy, Debug, PartialEq, Eq, Structural)]
pub struct TransportLimits {
    pub max_inflight_requests: usize,
    pub max_record_bytes: usize,
    pub connection_inflight_bytes: usize,
}

impl TransportLimits {
    /// One request at least can be served.
    pub open spec fn valid(self) -> bool {
        &&& self.max_inflight_requests > 0
        &&& self.max_record_bytes > 0
        &&& self.connection_inflight_bytes >= self.max_record_bytes
    }

    pub fn is_valid(&self) -> (r: bool)
        ensures
            r == self.valid(),
    {
        self.max_inflight_requests > 0 && self.max_record_bytes > 0
            && self.connection_inflight_bytes >= self.max_record_bytes
    }
}

impl Default for TransportLimits {
    fn default() -> (r: TransportLimits)
        ensures
            r.max_inflight_requests == MAX_INFLIGHT_REQUESTS,
            r.max_record_bytes == MAX_RPC_RECORD_BYTES,
            r.connection_inflight_bytes == CONNECTION_INFLIGHT_BYTES,
            r.valid(),
    {
        TransportLimits {
            max_inflight_requests: MAX_INFLIGHT_REQUESTS,
            max_record_bytes: MAX_RPC_RECORD_BYTES,
            connection_inflight_bytes: CONNECTION_INFLIGHT_BYTES,
        }
    }
}

/// The loopback address of a host number.
pub fn generate_host_ip(hostnum: u16) -> (r: String)
    ensures
        r@ == "127.88."@ + decimal((hostnum / 256) as nat) + "."@ + decimal((hostnum % 256) as nat),
        r@ == host_ip(hostnum),
{
    assert((hostnum >> 8) & 0xFF == hostnum / 256) by (bit_vector);
    assert(hostnum & 0xFF == hostnum % 256) by (bit_vector);
    let mut r = "127.88.".to_owned();
    push_decimal(&mut r, ((hostnum >> 8) & 0xFF) as u64);
    r.append(".");
    push_decimal(&mut r, (hostnum & 0xFF) as u64);
    r
}

// --------------------------------------------------------------------- records

/// Why a record is not taken.
pub enum RecordError {
    /// The first fragment alone is longer than a record may be.
    FragmentTooLong { length: usize, limit: usize },
    /// The fragments together are longer than a record may be.
    RecordTooLong { length: usize, limit: usize },
    /// The length of the fragments together cannot be told.
    LengthOverflow,
    /// The limit cannot be reserved as byte credits.
    LimitTooLarge,
    /// There is no memory for the record.
    Reserve(TryReserveError),
}

impl RecordError {
    /// What the error is told as. The reason why memory could not be had is left
    /// out.
    pub open spec fn text(self) -> Seq<char> {
        match self {
            RecordError::FragmentTooLong { length, limit } => exceeds(
                "RPC record fragment length "@,
                length,
                limit,
            ),
            RecordError::RecordTooLong { length, limit } => exceeds(
                "RPC record length "@,
                length,
                limit,
            ),
            RecordError::LengthOverflow => "RPC record length overflow"@,
            RecordError::LimitTooLarge => "RPC record limit exceeds semaphore capacity"@,
            RecordError::Reserve(_) => "unable to reserve RPC record"@,
        }
    }

    pub fn message(&self) -> (r: String)
        ensures
            r@ == self.text(),
    {
        match self {
            RecordError::FragmentTooLong { length, limit } => tell_excess(
                "RPC record fragment length ",
                *length,
                *limit,
            ),
            RecordError::RecordTooLong { length, limit } => tell_excess(
                "RPC record length ",
                *length,
                *limit,
            ),
            RecordError::LengthOverflow => "RPC record length overflow".to_owned(),
            RecordError::LimitTooLarge => {
                "RPC record limit exceeds semaphore capacity".to_owned()
            },
            RecordError::Reserve(_) => "unable to reserve RPC record".to_owned(),
        }
    }
}

/// What is too long, by how much.
pub open spec fn exceeds(what: Seq<char>, length: usize, limit: usize) -> Seq<char> {
    what + decimal(length as nat) + " exceeds limit "@ + decimal(limit as nat)
}

fn tell_excess(what: &str, length: usize, limit: usize) -> (r: String)
    ensures
        r@ == exceeds(what@, length, limit),
{
    let mut r = what.to_owned();
    push_decimal(&mut r, length as u64);
    r.append(" exceeds limit ");
    push_decimal(&mut r, limit as u64);
    r
}

/// The length that a record marker gives.
pub open spec fn marker_length(marker: u32) -> u32 {
    marker % 0x8000_0000
}

/// The marker is that of the last fragment of a record.
pub open spec fn marker_is_last(marker: u32) -> bool {
    marker >= 0x8000_0000
}

fn read_marker(marker: u32) -> (r: (bool, u32))
    ensures
        r.0 == marker_is_last(marker),
        r.1 == marker_length(marker),
{
    assert((marker & 0x7fff_ffff) == marker % 0x8000_0000) by (bit_vector);
    assert((marker & 0x8000_0000 != 0) == (marker >= 0x8000_0000)) by (bit_vector);
    (marker & 0x8000_0000 != 0, marker & 0x7fff_ffff)
}

/// What follows the first marker of a record.
pub enum Admission {
    /// The client has closed the connection between records.
    End,
    /// Take `cost` byte credits, of all connections and then of this one, before
    /// anything of the record is read.
    Reserve { cost: u32, marker: u32 },
}

/// What follows the first marker, if there is one.
pub open spec fn admission(marker: Option<u32>, limits: TransportLimits) -> Result<
    Admission,
    RecordError,
> {
    match marker {
        None => Ok(Admission::End),
        Some(m) => if marker_length(m) > limits.max_record_bytes {
            Err(
                RecordError::FragmentTooLong {
                    length: marker_length(m) as usize,
                    limit: limits.max_record_bytes,
                },
            )
        } else if limits.max_record_bytes > u32::MAX {
            Err(RecordError::LimitTooLarge)
        } else {
            Ok(Admission::Reserve { cost: limits.max_record_bytes as u32, marker: m })
        },
    }
}

/// Looks at the first marker, if there is one. A record is charged at the limit:
/// this also covers a small request whose reply is large.
pub fn admit_record(marker: Option<u32>, limits: &TransportLimits) -> (r: Result<
    Admission,
    RecordError,
>)
    ensures
        r == admission(marker, *limits),
{
    match marker {
        None => Ok(Admission::End),
        Some(m) => {
            let length: usize = read_marker(m).1 as usize;
            if length > limits.max_record_bytes {
                Err(RecordError::FragmentTooLong { length, limit: limits.max_record_bytes })
            } else if limits.max_record_bytes as u64 > 0xffff_ffff {
                Err(RecordError::LimitTooLarge)
            } else {
                Ok(Admission::Reserve { cost: limits.max_record_bytes as u32, marker: m })
            }
        },
    }
}

/// A record with room for its next fragment, which is to be read over the zeros
/// from `start` on.
pub struct Fill {
    pub record: Vec<u8>,
    pub start: usize,
    pub is_last: bool,
}

/// The length that a record comes to with the fragment that a marker announces,
/// as long as it stays within its limit.
pub open spec fn next_length(so_far: nat, marker: u32, limit: usize) -> Result<
    usize,
    RecordError,
> {
    let length = so_far + marker_length(marker);
    if length > usize::MAX {
        Err(RecordError::LengthOverflow)
    } else if length > limit {
        Err(RecordError::RecordTooLong { length: length as usize, limit })
    } else {
        Ok(length as usize)
    }
}

impl Fill {
    /// It is the record with zeros in place of the fragment that a marker announces.
    pub open spec fn has_room(self, record: Seq<u8>, marker: u32) -> bool {
        &&& self.record@ == record + zeros(marker_length(marker) as nat)
        &&& self.start == record.len()
        &&& self.is_last == marker_is_last(marker)
    }
}

/// How much memory to reserve for the fragment that a marker announces: its
/// length, unless the record would pass its limit.
pub fn fragment_room(record: &Vec<u8>, marker: u32, limit: usize) -> (r: Result<
    usize,
    RecordError,
>)
    ensures
        match next_length(record@.len(), marker, limit) {
            Err(e) => r == Err::<usize, RecordError>(e),
            Ok(_) => r == Ok::<usize, RecordError>(marker_length(marker) as usize),
        },
{
    let length: usize = read_marker(marker).1 as usize;
    match record.len().checked_add(length) {
        None => Err(RecordError::LengthOverflow),
        Some(new_length) => if new_length > limit {
            Err(RecordError::RecordTooLong { length: new_length, limit })
        } else {
            Ok(length)
        },
    }
}

/// Calls `Vec::try_reserve_exact`: it leaves the contents as they are, whether or
/// not there is memory, and needs none where nothing is to be added. When there
/// is memory for more is left unsaid, since that depends on the machine.
#[verifier::external_body]
fn reserve_exact(record: &mut Vec<u8>, additional: usize) -> (r: Result<(), TryReserveError>)
    ensures
        final(record)@ == old(record)@,
        additional == 0 ==> r is Ok,
{
    record.try_reserve_exact(additional)
}

/// Makes room in a record for the fragment that a marker announces, once it is
/// known whether memory could be reserved for it.
pub fn room_made(record: Vec<u8>, marker: u32, reserved: Result<(), TryReserveError>) -> (r: Result<
    Fill,
    RecordError,
>)
    requires
        record@.len() + marker_length(marker) <= usize::MAX,
    ensures
        match reserved {
            Err(e) => r == Err::<Fill, RecordError>(RecordError::Reserve(e)),
            Ok(_) => r matches Ok(fill) && fill.has_room(record@, marker),
        },
{
    match reserved {
        Err(e) => Err(RecordError::Reserve(e)),
        Ok(_) => {
            let mut record = record;
            let start: usize = record.len();
            let ghost before = record@;
            let (is_last, length) = read_marker(marker);
            record.resize(start + length as usize, 0);
            proof {
                assert forall|i: int| 0 <= i < before.len() implies record@[i] == before[i] by {
                    if length > 0 {
                        assert(record@.subrange(0, start as int)[i] == before[i]);
                    }
                }
                assert(record@ =~= before + zeros(length as nat));
            }
            Ok(Fill { record, start, is_last })
        },
    }
}

/// Makes room for the fragment that a marker announces, as long as the record
/// stays within its limit. A fragment that is not empty takes memory, which may
/// be lacking.
pub fn next_fragment(record: Vec<u8>, marker: u32, limit: usize) -> (r: Result<Fill, RecordError>)
    ensures
        match next_length(record@.len(), marker, limit) {
            Err(e) => r == Err::<Fill, RecordError>(e),
            Ok(_) => match r {
                Ok(fill) => fill.has_room(record@, marker),
                Err(e) => e is Reserve && marker_length(marker) > 0,
            },
        },
{
    let additional: usize = match fragment_room(&record, marker, limit) {
        Ok(additional) => additional,
        Err(e) => return Err(e),
    };
    let mut record = record;
    let reserved = reserve_exact(&mut record, additional);
    room_made(record, marker, reserved)
}

/// What follows a fragment that has been read.
pub enum RecordStep {
    /// The record is complete.
    Complete(Vec<u8>),
    /// Read another marker, and go on with this part of the record.
    More(Vec<u8>),
}

/// What follows a fragment that has been read: another one, unless it is the last.
pub open spec fn after_fragment(fill: Fill) -> RecordStep {
    if fill.is_last {
        RecordStep::Complete(fill.record)
    } else {
        RecordStep::More(fill.record)
    }
}

pub fn fragment_read(fill: Fill) -> (r: RecordStep)
    ensures
        r == after_fragment(fill),
{
    if fill.is_last {
        RecordStep::Complete(fill.record)
    } else {
        RecordStep::More(fill.record)
    }
}

/// What reading a record from a stream comes to, where memory is not lacking.
pub enum Reading {
    /// The stream ends between records.
    End,
    /// The stream ends within a record.
    Cut,
    /// The record is not taken.
    Refused(RecordError),
    /// The record, for `cost` byte credits, and what follows it in the stream.
    Record { cost: u32, bytes: Seq<u8>, rest: Seq<u8> },
}

/// Reading a record from its first marker on.
pub open spec fn reads(stream: Seq<u8>, limits: TransportLimits) -> Reading {
    if stream.len() == 0 {
        Reading::End
    } else {
        match parse_u32(stream) {
            Err(_) => Reading::Cut,
            Ok((first, behind)) => match admission(Some(first), limits) {
                Err(e) => Reading::Refused(e),
                Ok(Admission::End) => Reading::End,
                Ok(Admission::Reserve { cost, marker }) => reads_on(
                    cost,
                    Seq::empty(),
                    marker,
                    behind,
                    limits.max_record_bytes,
                ),
            },
        }
    }
}

/// Reading goes on behind a marker, with the part of the record that is there.
pub open spec fn reads_on(
    cost: u32,
    record: Seq<u8>,
    marker: u32,
    stream: Seq<u8>,
    limit: usize,
) -> Reading
    decreases stream.len(),
{
    let n = marker_length(marker) as int;
    match next_length(record.len(), marker, limit) {
        Err(e) => Reading::Refused(e),
        Ok(_) => if stream.len() < n {
            Reading::Cut
        } else if marker_is_last(marker) {
            Reading::Record { cost, bytes: record + stream.take(n), rest: stream.skip(n) }
        } else {
            match parse_u32(stream.skip(n)) {
                Err(_) => Reading::Cut,
                Ok((next, behind)) => reads_on(
                    cost,
                    record + stream.take(n),
                    next,
                    behind,
                    limit,
                ),
            }
        },
    }
}

/// One turn of reading a record: a fragment is read over the zeros that were made
/// for it, and the record is complete or goes on at the next marker.
pub proof fn lemma_reading_goes_on(
    cost: u32,
    record: Seq<u8>,
    marker: u32,
    stream: Seq<u8>,
    limit: usize,
    room: Fill,
    read: Fill,
)
    requires
        next_length(record.len(), marker, limit) is Ok,
        room.has_room(record, marker),
        stream.len() >= marker_length(marker),
        read.record@ == room.record@.take(room.start as int) + stream.take(
            marker_length(marker) as int,
        ),
        read.start == room.start,
        read.is_last == room.is_last,
    ensures
        ({
            let rest = stream.skip(marker_length(marker) as int);
            reads_on(cost, record, marker, stream, limit) == match after_fragment(read) {
                RecordStep::Complete(bytes) => Reading::Record { cost, bytes: bytes@, rest },
                RecordStep::More(more) => match parse_u32(rest) {
                    Err(_) => Reading::Cut,
                    Ok((next, behind)) => reads_on(cost, more@, next, behind, limit),
                },
            }
        }),
{
    assert(room.record@.take(room.start as int) =~= record);
}

/// The marker of a fragment.
pub open spec fn marker_of(length: nat, is_last: bool) -> u32 {
    if is_last {
        (length + 0x8000_0000) as u32
    } else {
        length as u32
    }
}

/// A record in fragments: each behind its marker, the last one marked so.
pub open spec fn framed(fragments: Seq<Seq<u8>>) -> Seq<u8>
    decreases fragments.len(),
{
    if fragments.len() == 0 {
        Seq::empty()
    } else {
        xdr_u32(marker_of(fragments[0].len(), fragments.len() == 1)) + fragments[0] + framed(
            fragments.drop_first(),
        )
    }
}

/// The lengths of the fragments can be written in their markers.
pub open spec fn can_be_framed(fragments: Seq<Seq<u8>>) -> bool {
    forall|i: int| 0 <= i < fragments.len() ==> (#[trigger] fragments[i]).len() < 0x8000_0000
}

proof fn lemma_reads_fragments(
    cost: u32,
    record: Seq<u8>,
    fragments: Seq<Seq<u8>>,
    rest: Seq<u8>,
    limit: usize,
)
    requires
        fragments.len() > 0,
        can_be_framed(fragments),
        record.len() + fragments.flatten().len() <= limit,
    ensures
        reads_on(
            cost,
            record,
            marker_of(fragments[0].len(), fragments.len() == 1),
            fragments[0] + framed(fragments.drop_first()) + rest,
            limit,
        ) == (Reading::Record { cost, bytes: record + fragments.flatten(), rest }),
    decreases fragments.len(),
{
    broadcast use crate::xdr::group_xdr_lengths;

    let first = fragments[0];
    let others = fragments.drop_first();
    let stream = first + framed(others) + rest;
    let n = first.len() as int;
    assert(first.len() < 0x8000_0000);
    assert(stream.take(n) =~= first);
    assert(stream.skip(n) =~= framed(others) + rest);
    assert(fragments.flatten() == first + others.flatten());
    if fragments.len() == 1 {
        assert(others.flatten() =~= Seq::empty());
        assert(first + others.flatten() =~= first);
        assert(framed(others) + rest =~= rest);
    } else {
        let next = marker_of(others[0].len(), others.len() == 1);
        let behind = others[0] + framed(others.drop_first()) + rest;
        assert forall|i: int| 0 <= i < others.len() implies (#[trigger] others[i]).len()
            < 0x8000_0000 by {
            assert(others[i] == fragments[i + 1]);
        }
        assert(framed(others) + rest =~= xdr_u32(next) + behind);
        u32_round_trip(next, behind);
        lemma_reads_fragments(cost, record + first, others, rest, limit);
        assert(record + first + others.flatten() =~= record + (first + others.flatten()));
    }
}

/// A record within the limit is read as its fragments one behind the other, at
/// the cost of the largest record, and nothing behind it is read. Where the
/// stream has ended there is no record, and no cost.
pub proof fn lemma_fragments_are_joined(
    fragments: Seq<Seq<u8>>,
    rest: Seq<u8>,
    limits: TransportLimits,
)
    requires
        fragments.len() > 0,
        can_be_framed(fragments),
        fragments.flatten().len() <= limits.max_record_bytes,
        limits.max_record_bytes <= u32::MAX,
    ensures
        reads(framed(fragments) + rest, limits) == (Reading::Record {
            cost: limits.max_record_bytes as u32,
            bytes: fragments.flatten(),
            rest,
        }),
        reads(Seq::empty(), limits) == Reading::End,
{
    broadcast use crate::xdr::group_xdr_lengths;

    let first = marker_of(fragments[0].len(), fragments.len() == 1);
    let behind = fragments[0] + framed(fragments.drop_first()) + rest;
    assert(fragments[0].len() < 0x8000_0000);
    assert(framed(fragments) + rest =~= xdr_u32(first) + behind);
    u32_round_trip(first, behind);
    assert(fragments.flatten() == fragments[0] + fragments.drop_first().flatten());
    lemma_reads_fragments(
        limits.max_record_bytes as u32,
        Seq::empty(),
        fragments,
        rest,
        limits.max_record_bytes,
    );
    assert(Seq::<u8>::empty() + fragments.flatten() =~= fragments.flatten());
}

/// A message that was written as a record is read back, and what follows it is
/// left.
pub proof fn lemma_record_round_trip(message: Seq<u8>, rest: Seq<u8>, limits: TransportLimits)
    requires
        message.len() < 0x8000_0000,
        message.len() <= limits.max_record_bytes,
        limits.max_record_bytes <= u32::MAX,
    ensures
        reads(fragment(message) + rest, limits) == (Reading::Record {
            cost: limits.max_record_bytes as u32,
            bytes: message,
            rest,
        }),
{
    let fragments = seq![message];
    fragments.lemma_flatten_one_element();
    assert(fragments.drop_first() =~= Seq::empty());
    reveal_with_fuel(framed, 2);
    assert(framed(fragments) =~= fragment(message));
    lemma_fragments_are_joined(fragments, rest, limits);
}

// ------------------------------------------------------------------- the writer

/// What becomes of a reply.
#[derive(Clone, Copy, Debug, PartialEq, Eq, Structural)]
pub enum ReplyAction {
    /// The writer has failed before: discard the reply.
    Discard,
    /// The reply is longer than a record may be: the writer fails.
    Refuse,
    /// Write the reply as a record.
    Write,
}

pub fn reply_action(writer_failed: bool, length: usize, limit: usize) -> (r: ReplyAction)
    ensures
        r == (if writer_failed {
            ReplyAction::Discard
        } else if length > limit {
            ReplyAction::Refuse
        } else {
            ReplyAction::Write
        }),
        r == fate_of_reply(writer_failed, length, limit),
{
    if writer_failed {
        ReplyAction::Discard
    } else if length > limit {
        ReplyAction::Refuse
    } else {
        ReplyAction::Write
    }
}

/// What a refused reply is told as.
pub fn refused_reply_message(length: usize, limit: usize) -> (r: String)
    ensures
        r@ == exceeds("RPC reply length "@, length, limit),
{
    tell_excess("RPC reply length ", length, limit)
}

// --------------------------------------------------------------- the connection

/// A connection: the requests that are being served and the replies that are not
/// yet written. Each of them holds a place and its byte credits.
pub struct Connection<E> {
    max_inflight: usize,
    record_bytes: usize,
    budget: usize,
    accepting: bool,
    inflight: usize,
    unwritten: usize,
    terminal_error: Option<E>,
}

/// The state of a connection.
pub struct ConnectionView<E> {
    pub max_inflight: nat,
    /// The byte credits that a request holds.
    pub record_bytes: nat,
    /// The byte credits that there are.
    pub budget: nat,
    /// Requests are still read.
    pub accepting: bool,
    /// Requests that are being served.
    pub inflight: nat,
    /// Replies that are not yet written.
    pub unwritten: nat,
    /// The first error.
    pub terminal_error: Option<E>,
}

/// What a connection waits for.
#[derive(Clone, Copy, Debug, PartialEq, Eq, Structural)]
pub enum Plan {
    /// Nothing: it is over.
    Finish,
    /// The first of these that happens, looked at in this order.
    Wait { replies: bool, requests: bool, cancellation: bool, commands: bool },
}

impl<E> View for Connection<E> {
    type V = ConnectionView<E>;

    closed spec fn view(&self) -> ConnectionView<E> {
        ConnectionView {
            max_inflight: self.max_inflight as nat,
            record_bytes: self.record_bytes as nat,
            budget: self.budget as nat,
            accepting: self.accepting,
            inflight: self.inflight as nat,
            unwritten: self.unwritten as nat,
            terminal_error: self.terminal_error,
        }
    }
}

impl<E> ConnectionView<E> {
    /// The state of a connection that has just been made.
    pub open spec fn fresh(limits: TransportLimits) -> ConnectionView<E> {
        ConnectionView {
            max_inflight: limits.max_inflight_requests as nat,
            record_bytes: limits.max_record_bytes as nat,
            budget: limits.connection_inflight_bytes as nat,
            accepting: true,
            inflight: 0,
            unwritten: 0,
            terminal_error: None,
        }
    }

    /// The requests whose replies are neither written nor discarded.
    pub open spec fn held(self) -> nat {
        self.inflight + self.unwritten
    }

    /// Every request that is held has its place and its byte credits.
    pub open spec fn valid(self) -> bool {
        &&& self.max_inflight > 0
        &&& self.record_bytes > 0
        &&& self.held() <= self.max_inflight
        &&& self.held() * self.record_bytes <= self.budget
    }

    /// There is a place for one request more, and it is wanted.
    pub open spec fn reading(self) -> bool {
        self.accepting && self.held() < self.max_inflight
    }

    /// There are byte credits for one request more.
    pub open spec fn has_credit(self) -> bool {
        (self.held() + 1) * self.record_bytes <= self.budget
    }

    /// After it was looked whether the connection is cancelled.
    pub open spec fn noticing(self, cancelled: bool) -> ConnectionView<E> {
        ConnectionView { accepting: self.accepting && !cancelled, ..self }
    }

    pub open spec fn plan(self) -> Plan {
        if !self.reading() && self.inflight == 0 && self.unwritten == 0 {
            Plan::Finish
        } else {
            Plan::Wait {
                replies: self.unwritten > 0,
                requests: self.inflight > 0,
                cancellation: self.accepting,
                commands: self.reading(),
            }
        }
    }

    /// After an error: nothing more is read, and the first error is kept.
    pub open spec fn failed(self, error: E) -> ConnectionView<E> {
        ConnectionView {
            accepting: false,
            terminal_error: if self.terminal_error is Some {
                self.terminal_error
            } else {
                Some(error)
            },
            ..self
        }
    }

    /// After a reply was written, discarded, or could not be written.
    pub open spec fn after_reply(self, written: Result<(), E>) -> ConnectionView<E> {
        let left = ConnectionView { unwritten: (self.unwritten - 1) as nat, ..self };
        match written {
            Ok(_) => left,
            Err(error) => left.failed(error),
        }
    }

    /// After a request was served, with a reply or without.
    pub open spec fn after_request(self, replies: Result<bool, E>) -> ConnectionView<E> {
        let left = ConnectionView { inflight: (self.inflight - 1) as nat, ..self };
        match replies {
            Ok(true) => ConnectionView { unwritten: left.unwritten + 1, ..left },
            Ok(false) => left,
            Err(error) => left.failed(error),
        }
    }

    /// After a record was read, or none will follow.
    pub open spec fn after_command(self, command: Option<Result<(), E>>) -> ConnectionView<E> {
        match command {
            None => ConnectionView { accepting: false, ..self },
            Some(Err(error)) => self.failed(error),
            Some(Ok(_)) => ConnectionView { inflight: self.inflight + 1, ..self },
        }
    }
}

proof fn lemma_one_fewer(held: int, bytes: int)
    requires
        bytes >= 0,
    ensures
        (held - 1) * bytes == held * bytes - bytes,
{
    assert((held - 1) * bytes == held * bytes - bytes) by (nonlinear_arith);
}

impl<E> Connection<E> {
    #[verifier::type_invariant]
    spec fn within(self) -> bool {
        self@.valid()
    }

    pub fn new(limits: &TransportLimits) -> (r: Connection<E>)
        requires
            limits.valid(),
        ensures
            r@ == ConnectionView::<E>::fresh(*limits),
            r@.valid(),
    {
        Connection {
            max_inflight: limits.max_inflight_requests,
            record_bytes: limits.max_record_bytes,
            budget: limits.connection_inflight_bytes,
            accepting: true,
            inflight: 0,
            unwritten: 0,
            terminal_error: None,
        }
    }

    /// The byte credits that the requests hold.
    pub fn held_bytes(&self) -> (r: usize)
        ensures
            r == self@.held() * self@.record_bytes,
            r == self@.credits(),
    {
        proof {
            use_type_invariant(self);
        }
        (self.inflight + self.unwritten) * self.record_bytes
    }

    /// There are byte credits for one request more.
    pub fn has_credit(&self) -> (r: bool)
        ensures
            r == self@.has_credit(),
    {
        proof {
            use_type_invariant(self);
        }
        let held: usize = (self.inflight + self.unwritten) * self.record_bytes;
        proof {
            let n = (self.inflight + self.unwritten) as int;
            let b = self.record_bytes as int;
            assert((n + 1) * b == n * b + b) by (nonlinear_arith);
        }
        self.budget - held >= self.record_bytes
    }

    /// What to wait for next, given whether the connection is cancelled.
    pub fn plan(&mut self, cancelled: bool) -> (r: Plan)
        ensures
            final(self)@ == old(self)@.noticing(cancelled),
            r == final(self)@.plan(),
            final(self)@.valid(),
    {
        proof {
            use_type_invariant(&*self);
        }
        if cancelled {
            self.accepting = false;
        }
        let reading = self.accepting && self.inflight + self.unwritten < self.max_inflight;
        if !reading && self.inflight == 0 && self.unwritten == 0 {
            Plan::Finish
        } else {
            Plan::Wait {
                replies: self.unwritten > 0,
                requests: self.inflight > 0,
                cancellation: self.accepting,
                commands: reading,
            }
        }
    }

    fn fail(&mut self, error: E)
        ensures
            final(self)@ == old(self)@.failed(error),
    {
        proof {
            use_type_invariant(&*self);
        }
        self.accepting = false;
        if self.terminal_error.is_none() {
            self.terminal_error = Some(error);
        }
    }

    /// A reply was written, discarded, or could not be written.
    pub fn reply_written(&mut self, written: Result<(), E>)
        requires
            old(self)@.unwritten > 0,
        ensures
            final(self)@ == old(self)@.after_reply(written),
            final(self)@.valid(),
    {
        proof {
            use_type_invariant(&*self);
            lemma_one_fewer(self@.held() as int, self@.record_bytes as int);
        }
        self.unwritten = self.unwritten - 1;
        if let Err(error) = written {
            self.fail(error);
        }
        proof {
            use_type_invariant(&*self);
        }
    }

    /// A request was served, with a reply or without.
    pub fn request_served(&mut self, replies: Result<bool, E>)
        requires
            old(self)@.inflight > 0,
        ensures
            final(self)@ == old(self)@.after_request(replies),
            final(self)@.valid(),
    {
        proof {
            use_type_invariant(&*self);
            lemma_one_fewer(self@.held() as int, self@.record_bytes as int);
        }
        self.inflight = self.inflight - 1;
        match replies {
            Ok(true) => {
                self.unwritten = self.unwritten + 1;
            },
            Ok(false) => {},
            Err(error) => {
                self.fail(error);
            },
        }
        proof {
            use_type_invariant(&*self);
        }
    }

    /// The connection was cancelled.
    pub fn cancelled(&mut self)
        ensures
            final(self)@ == old(self)@.noticing(true),
            final(self)@.valid(),
    {
        proof {
            use_type_invariant(&*self);
        }
        self.accepting = false;
    }

    /// A record was read, or none will follow. A record that was read holds its
    /// byte credits already.
    pub fn record_read(&mut self, command: Option<Result<(), E>>)
        requires
            old(self)@.reading(),
            command matches Some(Ok(_)) ==> old(self)@.has_credit(),
        ensures
            final(self)@ == old(self)@.after_command(command),
            final(self)@.valid(),
    {
        proof {
            use_type_invariant(&*self);
        }
        match command {
            None => {
                self.accepting = false;
            },
            Some(Err(error)) => {
                self.fail(error);
            },
            Some(Ok(_)) => {
                self.inflight = self.inflight + 1;
            },
        }
        proof {
            use_type_invariant(&*self);
        }
    }

    /// How the connection ended: with its first error, if there was one.
    pub fn into_result(self) -> (r: Result<(), E>)
        ensures
            r == (match self@.terminal_error {
                Some(error) => Err::<(), E>(error),
                None => Ok::<(), E>(()),
            }),
            r == self@.result(),
    {
        match self.terminal_error {
            Some(error) => Err(error),
            None => Ok(()),
        }
    }
}

// ------------------------------------------------------------------------ laws

/// What happens to a connection.
pub enum Event<E> {
    /// It is looked what to wait for, and whether the connection is cancelled.
    Look(bool),
    /// A reply was written, discarded, or could not be written.
    Reply(Result<(), E>),
    /// A request was served, with a reply or without.
    Request(Result<bool, E>),
    /// The connection was cancelled.
    Cancel,
    /// A record was read, or none will follow.
    Command(Option<Result<(), E>>),
}

impl<E> Event<E> {
    /// The error of an event that failed.
    pub open spec fn error(self) -> Option<E> {
        match self {
            Event::Reply(Err(error)) => Some(error),
            Event::Request(Err(error)) => Some(error),
            Event::Command(Some(Err(error))) => Some(error),
            _ => None,
        }
    }
}

impl<E> ConnectionView<E> {
    /// The event can happen.
    pub open spec fn allows(self, event: Event<E>) -> bool {
        match event {
            Event::Look(_) => true,
            Event::Reply(_) => self.unwritten > 0,
            Event::Request(_) => self.inflight > 0,
            Event::Cancel => true,
            Event::Command(command) => self.reading() && (command matches Some(Ok(_))
                ==> self.has_credit()),
        }
    }

    pub open spec fn after(self, event: Event<E>) -> ConnectionView<E> {
        match event {
            Event::Look(cancelled) => self.noticing(cancelled),
            Event::Reply(written) => self.after_reply(written),
            Event::Request(replies) => self.after_request(replies),
            Event::Cancel => self.noticing(true),
            Event::Command(command) => self.after_command(command),
        }
    }

    /// The events can happen, one after the other.
    pub open spec fn allows_all(self, events: Seq<Event<E>>) -> bool
        decreases events.len(),
    {
        events.len() == 0 || (self.allows_all(events.drop_last()) && self.after_all(
            events.drop_last(),
        ).allows(events.last()))
    }

    pub open spec fn after_all(self, events: Seq<Event<E>>) -> ConnectionView<E>
        decreases events.len(),
    {
        if events.len() == 0 {
            self
        } else {
            self.after_all(events.drop_last()).after(events.last())
        }
    }
}

/// How many of the events are of a kind.
pub open spec fn number<E>(events: Seq<Event<E>>, kind: spec_fn(Event<E>) -> bool) -> nat
    decreases events.len(),
{
    if events.len() == 0 {
        0
    } else {
        number(events.drop_last(), kind) + if kind(events.last()) {
            1nat
        } else {
            0nat
        }
    }
}

/// Whatever happens, no more requests are held than have a place and byte
/// credits. So a channel with a place for each never lacks room for a reply.
pub proof fn lemma_requests_are_bounded<E>(c: ConnectionView<E>, events: Seq<Event<E>>)
    requires
        c.valid(),
        c.allows_all(events),
    ensures
        c.after_all(events).valid(),
        c.after_all(events).max_inflight == c.max_inflight,
        c.after_all(events).held() <= c.max_inflight,
        c.after_all(events).held() * c.record_bytes <= c.budget,
    decreases events.len(),
{
    if events.len() > 0 {
        lemma_requests_are_bounded(c, events.drop_last());
        lemma_event_stays_bounded(c.after_all(events.drop_last()), events.last());
        lemma_limits_stay(c, events.drop_last());
    }
}

/// A connection starts with nothing held.
proof fn lemma_fresh_is_valid<E>(limits: TransportLimits)
    requires
        limits.valid(),
    ensures
        ConnectionView::<E>::fresh(limits).valid(),
{
    let fresh = ConnectionView::<E>::fresh(limits);
    assert(fresh.held() == 0);
    assert(0 * fresh.record_bytes == 0) by (nonlinear_arith);
}

proof fn lemma_limits_stay<E>(c: ConnectionView<E>, events: Seq<Event<E>>)
    ensures
        c.after_all(events).max_inflight == c.max_inflight,
        c.after_all(events).record_bytes == c.record_bytes,
        c.after_all(events).budget == c.budget,
    decreases events.len(),
{
    if events.len() > 0 {
        lemma_limits_stay(c, events.drop_last());
    }
}

proof fn lemma_event_stays_bounded<E>(c: ConnectionView<E>, event: Event<E>)
    requires
        c.valid(),
        c.allows(event),
    ensures
        c.after(event).valid(),
{
    let next = c.after(event);
    if next.held() <= c.held() {
        assert(next.held() * c.record_bytes <= c.held() * c.record_bytes) by (nonlinear_arith)
            requires
                next.held() <= c.held(),
        ;
    }
}

/// The records that a connection holds at a time are at most as many as its byte
/// credits pay for, whatever happens to it.
pub proof fn lemma_bytes_bound_requests<E>(limits: TransportLimits, events: Seq<Event<E>>)
    requires
        limits.valid(),
        ConnectionView::<E>::fresh(limits).allows_all(events),
    ensures
        ({
            let held = ConnectionView::<E>::fresh(limits).after_all(events).held();
            &&& held <= limits.max_inflight_requests
            &&& held * limits.max_record_bytes <= limits.connection_inflight_bytes
            &&& held <= limits.connection_inflight_bytes / limits.max_record_bytes
        }),
{
    let fresh = ConnectionView::<E>::fresh(limits);
    lemma_fresh_is_valid::<E>(limits);
    lemma_requests_are_bounded(fresh, events);
    let held = fresh.after_all(events).held() as int;
    let bytes = limits.max_record_bytes as int;
    let budget = limits.connection_inflight_bytes as int;
    assert(held <= budget / bytes) by (nonlinear_arith)
        requires
            held * bytes <= budget,
            bytes > 0,
    ;
}

/// A connection never waits for nothing: a reply to write, a request that is
/// served, or a record to read. Waiting to read never keeps it from writing.
pub proof fn lemma_no_deadlock<E>(c: ConnectionView<E>)
    ensures
        c.plan() matches Plan::Wait { replies, requests, commands, .. } ==> {
            &&& replies || requests || commands
            &&& replies == (c.unwritten > 0)
            &&& requests == (c.inflight > 0)
        },
{
}

/// A connection that has stopped reading does not start again: no further record
/// is taken. Its first error stays.
pub proof fn lemma_end_is_final<E>(c: ConnectionView<E>, events: Seq<Event<E>>)
    requires
        c.allows_all(events),
    ensures
        !c.accepting ==> !c.after_all(events).accepting,
        !c.accepting ==> forall|i: int|
            0 <= i < events.len() ==> !(#[trigger] events[i] is Command),
        c.terminal_error is Some ==> c.after_all(events).terminal_error == c.terminal_error,
    decreases events.len(),
{
    if events.len() > 0 {
        lemma_end_is_final(c, events.drop_last());
        assert forall|i: int| !c.accepting && 0 <= i < events.len() implies !(
        #[trigger] events[i] is Command) by {
            if i < events.len() - 1 {
                assert(events.drop_last()[i] == events[i]);
            }
        }
    }
}

/// The connection ends with an error if and only if some event failed, and then
/// with the error of the first that did.
pub proof fn lemma_result_is_the_first_error<E>(limits: TransportLimits, events: Seq<Event<E>>)
    ensures
        ({
            let end = ConnectionView::<E>::fresh(limits).after_all(events);
            &&& end.terminal_error is Some <==> exists|i: int|
                0 <= i < events.len() && (#[trigger] events[i]).error() is Some
            &&& end.terminal_error is Some ==> exists|i: int|
                {
                    &&& 0 <= i < events.len()
                    &&& (#[trigger] events[i]).error() == end.terminal_error
                    &&& forall|j: int| 0 <= j < i ==> (#[trigger] events[j]).error() is None
                }
        }),
    decreases events.len(),
{
    let fresh = ConnectionView::<E>::fresh(limits);
    if events.len() > 0 {
        let before = events.drop_last();
        lemma_result_is_the_first_error(limits, before);
        assert forall|i: int| 0 <= i < before.len() implies #[trigger] before[i] == events[i] by {}
        let so_far = fresh.after_all(before);
        let end = fresh.after_all(events);
        assert(end == so_far.after(events.last()));
        if so_far.terminal_error is Some {
            let i = choose|i: int|
                {
                    &&& 0 <= i < before.len()
                    &&& (#[trigger] before[i]).error() == so_far.terminal_error
                    &&& forall|j: int| 0 <= j < i ==> (#[trigger] before[j]).error() is None
                };
            assert forall|j: int| 0 <= j < i implies (#[trigger] events[j]).error() is None by {
                assert(before[j] == events[j]);
            }
            assert(events[i].error() == end.terminal_error);
        } else {
            assert forall|j: int| 0 <= j < before.len() implies (
            #[trigger] events[j]).error() is None by {
                assert(before[j] == events[j]);
            }
            assert(events[events.len() - 1].error() == end.terminal_error);
        }
    }
}

/// An event by which a record is taken.
pub open spec fn takes_record<E>() -> spec_fn(Event<E>) -> bool {
    |event: Event<E>| event matches Event::Command(Some(Ok(_)))
}

/// An event by which a request is served to its end.
pub open spec fn ends_request<E>() -> spec_fn(Event<E>) -> bool {
    |event: Event<E>| event is Request
}

/// An event by which a request leads to a reply.
pub open spec fn gives_reply<E>() -> spec_fn(Event<E>) -> bool {
    |event: Event<E>| event matches Event::Request(Ok(true))
}

/// An event by which a reply is written, discarded, or fails.
pub open spec fn ends_reply<E>() -> spec_fn(Event<E>) -> bool {
    |event: Event<E>| event is Reply
}

/// Every record that was taken is being served or has been, and every reply is
/// to be written or has been dealt with.
pub proof fn lemma_requests_are_accounted_for<E>(limits: TransportLimits, events: Seq<Event<E>>)
    requires
        ConnectionView::<E>::fresh(limits).allows_all(events),
    ensures
        ({
            let c = ConnectionView::<E>::fresh(limits).after_all(events);
            &&& number(events, takes_record()) == number(events, ends_request()) + c.inflight
            &&& number(events, gives_reply()) == number(events, ends_reply()) + c.unwritten
        }),
    decreases events.len(),
{
    if events.len() > 0 {
        lemma_requests_are_accounted_for(limits, events.drop_last());
    }
}

/// A connection ends only when every request that it accepted is served to its
/// end and every reply is written or discarded, and then it holds no byte
/// credits. Cancelling it does not change that.
pub proof fn lemma_accepted_requests_are_drained<E>(
    limits: TransportLimits,
    events: Seq<Event<E>>,
    cancelled: bool,
)
    requires
        limits.valid(),
        ConnectionView::<E>::fresh(limits).allows_all(events),
        ConnectionView::<E>::fresh(limits).after_all(events).noticing(cancelled).plan()
            == Plan::Finish,
    ensures
        number(events, takes_record()) == number(events, ends_request()),
        number(events, gives_reply()) == number(events, ends_reply()),
        ConnectionView::<E>::fresh(limits).after_all(events).held() == 0,
        !ConnectionView::<E>::fresh(limits).after_all(events).noticing(cancelled).accepting,
{
    lemma_requests_are_accounted_for(limits, events);
    lemma_fresh_is_valid::<E>(limits);
    lemma_requests_are_bounded(ConnectionView::<E>::fresh(limits), events);
}

// ----------------------------------------------------------------- more laws

/// The address of a host number.
pub open spec fn host_ip(hostnum: u16) -> Seq<char> {
    "127.88."@ + decimal((hostnum / 256) as nat) + "."@ + decimal((hostnum % 256) as nat)
}

/// The last two numbers of the address of a host are the two bytes of its number,
/// the high one first.
pub proof fn lemma_hosts_have_addresses(high: u8, low: u8)
    ensures
        host_ip((high * 256 + low) as u16) == "127.88."@ + decimal(high as nat) + "."@ + decimal(
            low as nat,
        ),
{
}

/// What becomes of a reply.
pub open spec fn fate_of_reply(writer_failed: bool, length: usize, limit: usize) -> ReplyAction {
    if writer_failed {
        ReplyAction::Discard
    } else if length > limit {
        ReplyAction::Refuse
    } else {
        ReplyAction::Write
    }
}

/// Nothing is written once the writer has failed, and nothing that is longer than a
/// record may be. Every other reply is written, and one that is written is read
/// back as it is.
pub proof fn lemma_replies_are_written(
    writer_failed: bool,
    reply: Seq<u8>,
    rest: Seq<u8>,
    limits: TransportLimits,
)
    requires
        reply.len() <= usize::MAX,
        limits.max_record_bytes < 0x8000_0000,
    ensures
        ({
            let fate = fate_of_reply(writer_failed, reply.len() as usize, limits.max_record_bytes);
            &&& fate == ReplyAction::Write <==> !writer_failed && reply.len()
                <= limits.max_record_bytes
            &&& fate == ReplyAction::Discard <==> writer_failed
            &&& fate == ReplyAction::Write ==> (reads(
                fragment(reply) + rest,
                limits,
            ) matches Reading::Record { bytes, rest: behind, .. } && bytes == reply && behind
                == rest)
        }),
{
    if !writer_failed && reply.len() <= limits.max_record_bytes {
        lemma_record_round_trip(reply, rest, limits);
    }
}

/// A record whose fragments together are longer than the limit is refused, and so
/// is one where the limit cannot be paid in byte credits; nothing of the stream is
/// taken as a record.
pub proof fn lemma_long_records_are_refused(
    fragments: Seq<Seq<u8>>,
    rest: Seq<u8>,
    limits: TransportLimits,
)
    requires
        fragments.len() > 0,
        can_be_framed(fragments),
        fragments.flatten().len() > limits.max_record_bytes || limits.max_record_bytes > u32::MAX,
    ensures
        reads(framed(fragments) + rest, limits) is Refused,
{
    broadcast use crate::xdr::group_xdr_lengths;

    let first = marker_of(fragments[0].len(), fragments.len() == 1);
    let behind = fragments[0] + framed(fragments.drop_first()) + rest;
    assert(fragments[0].len() < 0x8000_0000);
    assert(framed(fragments) + rest =~= xdr_u32(first) + behind);
    u32_round_trip(first, behind);
    if limits.max_record_bytes <= u32::MAX && fragments[0].len() <= limits.max_record_bytes {
        lemma_refuses_fragments(
            limits.max_record_bytes as u32,
            Seq::empty(),
            fragments,
            rest,
            limits.max_record_bytes,
        );
    }
}

proof fn lemma_refuses_fragments(
    cost: u32,
    record: Seq<u8>,
    fragments: Seq<Seq<u8>>,
    rest: Seq<u8>,
    limit: usize,
)
    requires
        fragments.len() > 0,
        can_be_framed(fragments),
        record.len() <= limit,
        record.len() + fragments.flatten().len() > limit,
    ensures
        reads_on(
            cost,
            record,
            marker_of(fragments[0].len(), fragments.len() == 1),
            fragments[0] + framed(fragments.drop_first()) + rest,
            limit,
        ) is Refused,
    decreases fragments.len(),
{
    broadcast use crate::xdr::group_xdr_lengths;

    let first = fragments[0];
    let others = fragments.drop_first();
    let stream = first + framed(others) + rest;
    let n = first.len() as int;
    assert(first.len() < 0x8000_0000);
    assert(fragments.flatten() == first + others.flatten());
    if record.len() + first.len() <= limit {
        assert(stream.take(n) =~= first);
        assert(stream.skip(n) =~= framed(others) + rest);
        if fragments.len() == 1 {
            assert(others.flatten() =~= Seq::empty());
        } else {
            let next = marker_of(others[0].len(), others.len() == 1);
            let behind = others[0] + framed(others.drop_first()) + rest;
            assert forall|i: int| 0 <= i < others.len() implies (#[trigger] others[i]).len()
                < 0x8000_0000 by {
                assert(others[i] == fragments[i + 1]);
            }
            assert(framed(others) + rest =~= xdr_u32(next) + behind);
            u32_round_trip(next, behind);
            lemma_refuses_fragments(cost, record + first, others, rest, limit);
        }
    }
}

impl<E> Event<E> {
    /// After the event nothing more is to be read: it failed, the connection was
    /// cancelled, or the client has closed it.
    pub open spec fn ends_reading(self) -> bool {
        self.error() is Some || self is Cancel || self == Event::<E>::Look(true) || self
            == Event::<E>::Command(None)
    }
}

/// A connection reads until something fails, it is cancelled or the client closes
/// it, and not beyond that. While it reads and has a place, it waits for the next
/// record; while it reads, it can be cancelled.
pub proof fn lemma_reads_until_the_end<E>(limits: TransportLimits, events: Seq<Event<E>>)
    ensures
        ({
            let c = ConnectionView::<E>::fresh(limits).after_all(events);
            &&& c.accepting <==> forall|i: int|
                0 <= i < events.len() ==> !(#[trigger] events[i]).ends_reading()
            &&& c.accepting && c.held() < limits.max_inflight_requests ==> (
            c.plan() matches Plan::Wait { commands, .. } && commands)
            &&& c.plan() matches Plan::Wait { cancellation, commands, .. } ==> cancellation
                == c.accepting && (commands ==> c.accepting && c.held()
                < limits.max_inflight_requests)
        }),
    decreases events.len(),
{
    let fresh = ConnectionView::<E>::fresh(limits);
    lemma_limits_stay(fresh, events);
    if events.len() > 0 {
        let before = events.drop_last();
        lemma_reads_until_the_end(limits, before);
        assert forall|i: int| 0 <= i < before.len() implies #[trigger] before[i] == events[i] by {}
        if fresh.after_all(before).accepting {
            assert forall|i: int| 0 <= i < before.len() implies !(
            #[trigger] events[i]).ends_reading() by {
                assert(before[i] == events[i]);
            }
            assert(events.last() == events[events.len() - 1]);
        } else {
            let i = choose|i: int| 0 <= i < before.len() && (#[trigger] before[i]).ends_reading();
            assert(events[i].ends_reading());
        }
    }
}

impl<E> ConnectionView<E> {
    /// How the connection ends, if it ends here.
    pub open spec fn result(self) -> Result<(), E> {
        match self.terminal_error {
            Some(error) => Err(error),
            None => Ok(()),
        }
    }

    /// The byte credits that are held.
    pub open spec fn credits(self) -> nat {
        self.held() * self.record_bytes
    }
}

/// A connection on which nothing failed ends well. One on which something failed
/// ends with the error of what failed first.
pub proof fn lemma_connections_end_as_they_went<E>(limits: TransportLimits, events: Seq<Event<E>>)
    ensures
        ({
            let end = ConnectionView::<E>::fresh(limits).after_all(events).result();
            &&& end is Ok <==> forall|i: int|
                0 <= i < events.len() ==> (#[trigger] events[i]).error() is None
            &&& end matches Err(error) ==> exists|i: int|
                {
                    &&& 0 <= i < events.len()
                    &&& (#[trigger] events[i]).error() == Some(error)
                    &&& forall|j: int| 0 <= j < i ==> (#[trigger] events[j]).error() is None
                }
        }),
{
    lemma_result_is_the_first_error(limits, events);
}

/// A record that is taken takes the credits of one record. They are given back when
/// its request ends without a reply, or else when its reply is dealt with.
pub proof fn lemma_credits_are_given_back<E>(
    c: ConnectionView<E>,
    written: Result<(), E>,
    error: E,
)
    ensures
        c.reading() ==> c.after_command(Some(Ok(()))).credits() == c.credits() + c.record_bytes,
        c.inflight > 0 ==> c.after_request(Ok(true)).credits() == c.credits(),
        c.inflight > 0 ==> c.after_request(Ok(false)).credits() == c.credits() - c.record_bytes,
        c.inflight > 0 ==> c.after_request(Err(error)).credits() == c.credits() - c.record_bytes,
        c.unwritten > 0 ==> c.after_reply(written).credits() == c.credits() - c.record_bytes,
        c.held() == 0 ==> c.credits() == 0,
{
    let n = c.held() as int;
    let b = c.record_bytes as int;
    assert((n + 1) * b == n * b + b) by (nonlinear_arith);
    assert((n - 1) * b == n * b - b) by (nonlinear_arith);
    assert(0 * b == 0) by (nonlinear_arith);
}

/// Limits are valid exactly if a connection can take a first record under them.
pub proof fn lemma_valid_limits_serve<E>(limits: TransportLimits)
    ensures
        limits.valid() <==> limits.max_record_bytes > 0 && ConnectionView::<E>::fresh(
            limits,
        ).reading() && ConnectionView::<E>::fresh(limits).has_credit(),
{
    let b = limits.max_record_bytes as nat;
    assert(ConnectionView::<E>::fresh(limits).held() == 0);
    assert((0 + 1) * b == b) by (nonlinear_arith);
}

} // verus!
