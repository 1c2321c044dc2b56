//! One RPC message from its bytes to its reply, and replies as records.
use crate::client::{
    lemma_call_is_parsed, lemma_credential_is_received, lemma_refusals_are_told,
    lemma_versions_are_told, sent_call, sent_credential, tells_refusal, word,
};
use crate::nfs::PROGRAM;
use crate::nfs_handlers::dispatch::{call_starts, nfs_step, NfsState};
use crate::nfs_handlers::{handle_nfs, NfsCall, Outcome, Step};
use crate::rpc::{
    auth_flavor, auth_unix, auth_unixView, call_body, parse_auth_unix,
    parse_rpc_msg, prog_mismatch_reply, prog_unavail_reply, prog_unavail_reply_message,
    rpc_body, rpc_mismatch_reply, rpc_msg, rpc_vers_mismatch, RPC_VERSION,
};
use crate::transaction_table::TransactionState;
use crate::transaction_tracker::{
    lemma_new_call_is_in_progress, TrackerView, TransactionTracker,
};
use crate::vfs::{AuthContext, CallContext, FsAnswer, FsRequest, RpcRequestContext};
use crate::xdr::{u32_round_trip, write_bytes, write_u32, xdr_u32, Input, XdrError};
use vstd::prelude::*;

verus! {

/// The RPC program number of the port mapper.
pub const PORTMAP_PROGRAM: u32 = 100000;

/// The RPC program number of the mount protocol.
pub const MOUNT_PROGRAM: u32 = 100005;

/// Why a message is not answered.
#[derive(Clone, Copy, Debug, PartialEq, Eq, Structural)]
pub enum RpcError {
    /// It could not be decoded.
    Decode(XdrError),
    /// It is a reply, not a call.
    NotACall,
    /// The file system answered something else than it was asked.
    UnexpectedAnswer,
    /// The file system answered more than can be encoded.
    AnswerTooLong,
    /// The program that served the call failed.
    ProgramFailed,
}

/// Where messages come from.
pub struct Peer {
    pub client_addr: String,
    pub connection_incarnation: u64,
    /// Who the caller is taken to be, unless a call says so itself.
    pub auth: auth_unix,
}

// ------------------------------------------------------------------ the machine

/// A call before it is known whether it has been seen before.
pub struct TrackedCall {
    pub context: CallContext,
    pub call: call_body,
    /// The arguments of the procedure.
    pub arguments: Input,
}

/// A call of a program that is served elsewhere.
pub struct ForeignCall {
    pub context: CallContext,
    pub call: call_body,
    pub arguments: Input,
}

/// An NFS call that waits for the file system.
pub struct PendingCall {
    context: CallContext,
    call: NfsCall,
}

impl View for PendingCall {
    type V = (CallContext, NfsState);

    closed spec fn view(&self) -> (CallContext, NfsState) {
        (self.context, self.call@)
    }
}

/// A call that is over: it is to be marked as processed, whatever its result.
pub struct SettledCall {
    pub context: CallContext,
    pub result: Result<Vec<u8>, RpcError>,
}

/// What is to be done next with a message.
pub enum RpcStep {
    /// Send this reply. The call is not tracked.
    Reply(Vec<u8>),
    /// Send nothing.
    Drop,
    /// There is no reply, and the connection has failed.
    Fail(RpcError),
    /// Check whether the call is a retransmission.
    Track(TrackedCall),
    /// Let the port mapper serve the call.
    Portmap(ForeignCall),
    /// Let the mount protocol serve the call.
    Mount(ForeignCall),
    /// Ask the file system.
    Ask(PendingCall),
    /// Mark the call as processed, then send its reply or fail.
    Settle(SettledCall),
}

impl RpcStep {
    /// The call that is being served, from when it is tracked on.
    pub open spec fn context(self) -> Option<CallContext> {
        match self {
            RpcStep::Track(t) => Some(t.context),
            RpcStep::Portmap(f) => Some(f.context),
            RpcStep::Mount(f) => Some(f.context),
            RpcStep::Ask(p) => Some(p@.0),
            RpcStep::Settle(s) => Some(s.context),
            _ => None,
        }
    }
}

/// Who the caller is: what the credential says if it is of the `AUTH_UNIX`
/// flavor, and else what is assumed of the peer.
pub open spec fn caller(
    cred: (auth_flavor, Seq<u8>),
    assumed: auth_unixView,
) -> Result<auth_unixView, XdrError> {
    if cred.0 == auth_flavor::AUTH_UNIX {
        match parse_auth_unix(cred.1) {
            Ok((auth, _)) => Ok(auth),
            Err(e) => Err(e),
        }
    } else {
        Ok(assumed)
    }
}

/// The context is that of a transaction of the peer for a caller.
pub open spec fn is_context(
    context: CallContext,
    peer: Peer,
    xid: u32,
    auth: auth_unixView,
) -> bool {
    &&& context.rpc.xid == xid
    &&& context.rpc.client_addr == peer.client_addr
    &&& context.rpc.connection_incarnation == peer.connection_incarnation
    &&& context.auth@ == (auth.2, auth.3, auth.4)
}

/// How a message is received. A credential that cannot be decoded fails before
/// the version of the protocol is looked at.
pub open spec fn receives(record: Seq<u8>, peer: Peer, r: RpcStep) -> bool {
    match parse_rpc_msg(record) {
        Err(e) => r == RpcStep::Fail(RpcError::Decode(e)),
        Ok(((_, None), _)) => r == RpcStep::Fail(RpcError::NotACall),
        Ok(((xid, Some(call)), arguments)) => match caller(call.4, peer.auth@) {
            Err(e) => r == RpcStep::Fail(RpcError::Decode(e)),
            Ok(auth) => if call.0 != RPC_VERSION {
                r matches RpcStep::Reply(bytes) && bytes@ == rpc_mismatch_reply(xid)
            } else {
                &&& r matches RpcStep::Track(t)
                &&& is_context(t.context, peer, xid, auth)
                &&& t.call@ == call
                &&& t.arguments@ == arguments
            },
        },
    }
}

/// Receives a message.
pub fn handle_rpc(record: Vec<u8>, peer: &Peer) -> (r: RpcStep)
    ensures
        receives(record@, *peer, r),
{
    let mut input = Input::new(record);
    let msg = match rpc_msg::deserialize(&mut input) {
        Ok(msg) => msg,
        Err(e) => return RpcStep::Fail(RpcError::Decode(e)),
    };
    let xid: u32 = msg.xid;
    let call = match msg.body {
        rpc_body::CALL(call) => call,
        rpc_body::REPLY => return RpcStep::Fail(RpcError::NotACall),
    };
    let auth = match call.cred.flavor {
        auth_flavor::AUTH_UNIX => {
            let body = call.cred.body.clone();
            assert(body@ =~= call.cred.body@);
            let mut credential = Input::new(body);
            match auth_unix::deserialize(&mut credential) {
                Ok(auth) => AuthContext::from_rpc_auth(&auth),
                Err(e) => return RpcStep::Fail(RpcError::Decode(e)),
            }
        },
        _ => AuthContext::from_rpc_auth(&peer.auth),
    };
    if call.rpcvers != RPC_VERSION {
        return RpcStep::Reply(rpc_vers_mismatch(xid));
    }
    let rpc = RpcRequestContext {
        xid,
        client_addr: peer.client_addr.clone(),
        connection_incarnation: peer.connection_incarnation,
    };
    RpcStep::Track(TrackedCall { context: CallContext { rpc, auth }, call, arguments: input })
}

/// How an NFS call goes on: by asking the file system, or settled.
pub open spec fn goes_on(context: CallContext, step: Outcome<NfsState>, r: RpcStep) -> bool {
    match step {
        Outcome::Reply(reply) => r matches RpcStep::Settle(s) && s.context == context
            && (s.result matches Ok(bytes) && bytes@ == reply),
        Outcome::Ask(state) => r matches RpcStep::Ask(p) && p@ == (context, state),
        Outcome::Fail(e) => r == RpcStep::Settle(
            SettledCall { context, result: Err(RpcError::Decode(e)) },
        ),
        Outcome::Unexpected => r == RpcStep::Settle(
            SettledCall { context, result: Err(RpcError::UnexpectedAnswer) },
        ),
    }
}

fn go_on(context: CallContext, step: Step<NfsCall>) -> (r: RpcStep)
    requires
        step matches Step::Ask(call) ==> call@.encodable(),
    ensures
        goes_on(context, nfs_step(step), r),
{
    match step {
        Step::Reply(bytes) => RpcStep::Settle(SettledCall { context, result: Ok(bytes) }),
        Step::Ask(call) => RpcStep::Ask(PendingCall { context, call }),
        Step::Fail(e) => RpcStep::Settle(
            SettledCall { context, result: Err(RpcError::Decode(e)) },
        ),
        Step::Unexpected => RpcStep::Settle(
            SettledCall { context, result: Err(RpcError::UnexpectedAnswer) },
        ),
    }
}

impl TrackedCall {
    /// How the call goes on, once the tracker has said whether it is a
    /// retransmission. A program that nobody serves is answered so.
    pub open spec fn proceeds(self, retransmission: bool, r: RpcStep) -> bool {
        let xid = self.context.rpc.xid;
        if retransmission {
            r == RpcStep::Drop
        } else if self.call.prog == PROGRAM {
            exists|step: Step<NfsCall>| #[trigger]
                started(xid, self.call.vers, self.call.proc, self.arguments@, step) && goes_on(
                    self.context,
                    nfs_step(step),
                    r,
                )
        } else if self.call.prog == PORTMAP_PROGRAM {
            r matches RpcStep::Portmap(f) && f.context == self.context && f.call == self.call
                && f.arguments == self.arguments
        } else if self.call.prog == MOUNT_PROGRAM {
            r matches RpcStep::Mount(f) && f.context == self.context && f.call == self.call
                && f.arguments == self.arguments
        } else {
            r matches RpcStep::Settle(s) && s.context == self.context && (s.result matches Ok(
                bytes,
            ) && bytes@ == prog_unavail_reply(xid))
        }
    }

    pub fn proceed(self, retransmission: bool) -> (r: RpcStep)
        ensures
            self.proceeds(retransmission, r),
    {
        if retransmission {
            return RpcStep::Drop;
        }
        let TrackedCall { context, call, arguments } = self;
        if call.prog == PROGRAM {
            let step = handle_nfs(context.rpc.xid, call.vers, call.proc, arguments);
            assert(started(context.rpc.xid, call.vers, call.proc, arguments@, step));
            go_on(context, step)
        } else if call.prog == PORTMAP_PROGRAM {
            RpcStep::Portmap(ForeignCall { context, call, arguments })
        } else if call.prog == MOUNT_PROGRAM {
            RpcStep::Mount(ForeignCall { context, call, arguments })
        } else {
            let reply = prog_unavail_reply_message(context.rpc.xid);
            RpcStep::Settle(SettledCall { context, result: Ok(reply) })
        }
    }

    /// Checks at a given time whether the call is a retransmission, and goes on.
    pub fn enter_at(self, tracker: &mut TransactionTracker, now: u128) -> (r: RpcStep)
        requires
            old(tracker)@.bounded(),
        ensures
            ({
                let (checked, seen) = old(tracker)@.check(now, self.context.rpc.identity());
                final(tracker)@ == checked && self.proceeds(seen, r)
            }),
            final(tracker)@.bounded(),
    {
        let seen = tracker.is_retransmission_at(
            now,
            self.context.rpc.connection_incarnation,
            self.context.rpc.xid,
            self.context.rpc.client_addr.as_str(),
        );
        self.proceed(seen)
    }

    /// Checks whether the call is a retransmission, and goes on.
    pub fn enter(self, tracker: &mut TransactionTracker) -> (r: RpcStep)
        requires
            old(tracker)@.bounded(),
        ensures
            exists|now: u128|
                {
                    let (checked, seen) = #[trigger] old(tracker)@.check(
                        now,
                        self.context.rpc.identity(),
                    );
                    final(tracker)@ == checked && self.proceeds(seen, r)
                },
            final(tracker)@.bounded(),
    {
        let ghost key = self.context.rpc.identity();
        let seen = tracker.is_retransmission(
            self.context.rpc.connection_incarnation,
            self.context.rpc.xid,
            self.context.rpc.client_addr.as_str(),
        );
        assert(exists|now: u128| (tracker@, seen) == #[trigger] old(tracker)@.check(now, key));
        self.proceed(seen)
    }
}

impl SettledCall {
    /// Marks the call as processed at a given time, and gives its result.
    pub fn conclude_at(self, tracker: &mut TransactionTracker, now: u128) -> (r: Result<
        Vec<u8>,
        RpcError,
    >)
        requires
            old(tracker)@.bounded(),
        ensures
            r == self.result,
            final(tracker)@ == old(tracker)@.complete(now, self.context.rpc.identity()),
            final(tracker)@.bounded(),
    {
        tracker.mark_processed_at(
            now,
            self.context.rpc.connection_incarnation,
            self.context.rpc.xid,
            self.context.rpc.client_addr.as_str(),
        );
        self.result
    }

    /// Marks the call as processed, and gives its result.
    pub fn conclude(self, tracker: &mut TransactionTracker) -> (r: Result<Vec<u8>, RpcError>)
        requires
            old(tracker)@.bounded(),
        ensures
            r == self.result,
            exists|now: u128|
                final(tracker)@ == #[trigger] old(tracker)@.complete(
                    now,
                    self.context.rpc.identity(),
                ),
            final(tracker)@.bounded(),
    {
        let ghost key = self.context.rpc.identity();
        tracker.mark_processed(
            self.context.rpc.connection_incarnation,
            self.context.rpc.xid,
            self.context.rpc.client_addr.as_str(),
        );
        assert(exists|now: u128| tracker@ == #[trigger] old(tracker)@.complete(now, key));
        self.result
    }
}

/// How an NFS call starts.
pub open spec fn started(
    xid: u32,
    vers: u32,
    proc: u32,
    arguments: Seq<u8>,
    step: Step<NfsCall>,
) -> bool {
    if vers != crate::nfs::VERSION {
        nfs_step(step) == Outcome::<NfsState>::Reply(
            prog_mismatch_reply(xid, crate::nfs::VERSION),
        )
    } else {
        call_starts(xid, proc, arguments, step)
    }
}

impl ForeignCall {
    /// Takes the reply of whoever served the call, or that there is none.
    pub fn settle(self, result: Result<Vec<u8>, RpcError>) -> (r: RpcStep)
        ensures
            r == RpcStep::Settle(SettledCall { context: self.context, result }),
    {
        RpcStep::Settle(SettledCall { context: self.context, result })
    }
}

impl PendingCall {
    #[verifier::type_invariant]
    spec fn valid(self) -> bool {
        self.call@.encodable()
    }

    /// What the call asks of the file system.
    pub fn request<'a>(&'a self) -> (r: FsRequest<'a>)
        ensures
            r == self@.1.asks(&self@.0),
    {
        self.call.request(&self.context)
    }

    /// Takes the answer. One that cannot be encoded settles the call.
    pub fn resume(self, answer: FsAnswer) -> (r: RpcStep)
        ensures
            answer.encodable() ==> goes_on(self@.0, self@.1.next(self@.0.rpc.xid, answer), r),
            !answer.encodable() ==> r == RpcStep::Settle(
                SettledCall { context: self@.0, result: Err(RpcError::AnswerTooLong) },
            ),
    {
        proof {
            use_type_invariant(&self);
        }
        let PendingCall { context, call } = self;
        if !answer.is_encodable() {
            return RpcStep::Settle(
                SettledCall { context, result: Err(RpcError::AnswerTooLong) },
            );
        }
        let xid: u32 = context.rpc.xid;
        go_on(context, call.resume(xid, answer))
    }
}

// --------------------------------------------------------------------- records

/// A message as one record: a marker of its length with the last-fragment bit,
/// then the message.
pub open spec fn fragment(message: Seq<u8>) -> Seq<u8> {
    xdr_u32((message.len() + 0x8000_0000) as u32) + message
}

/// Appends a message as one record.
pub fn write_fragment(output: &mut Vec<u8>, buf: &[u8])
    requires
        buf@.len() < 0x8000_0000,
    ensures
        final(output)@ == old(output)@ + fragment(buf@),
{
    let header: u32 = buf.len() as u32 + 0x8000_0000;
    write_u32(output, header);
    write_bytes(output, buf);
    assert(output@ =~= old(output)@ + fragment(buf@));
}

// ------------------------------------------------------------------------ laws

/// A retransmission is neither carried out nor answered.
pub proof fn lemma_retransmission_is_dropped(call: TrackedCall, r: RpcStep)
    requires
        call.proceeds(true, r),
    ensures
        r == RpcStep::Drop,
{
}

/// A message that is not a call of version 2 never reaches the tracker.
pub proof fn lemma_only_calls_are_tracked(record: Seq<u8>, peer: Peer, r: RpcStep)
    requires
        receives(record, peer, r),
        r is Track,
    ensures
        parse_rpc_msg(record) matches Ok(((xid, Some(call)), _)) && call.0 == RPC_VERSION
            && r->Track_0.context.rpc.xid == xid,
{
}

/// A call keeps its context from when it is tracked until it is settled.
pub proof fn lemma_context_is_kept(
    call: TrackedCall,
    retransmission: bool,
    first: RpcStep,
    context: CallContext,
    step: Outcome<NfsState>,
    later: RpcStep,
)
    requires
        call.proceeds(retransmission, first),
        goes_on(context, step, later),
    ensures
        first == RpcStep::Drop || first.context() == Some(call.context),
        later.context() == Some(context),
{
}

/// A call is marked as processed under the identity under which it was checked:
/// one that was let through is in progress, and once it is settled it is
/// completed, at whatever times.
pub proof fn lemma_admitted_call_is_concluded(
    t: TrackerView,
    now: u128,
    call: TrackedCall,
    settled: SettledCall,
    later: u128,
)
    requires
        !t.check(now, call.context.rpc.identity()).1,
        settled.context == call.context,
    ensures
        ({
            let key = call.context.rpc.identity();
            let serving = t.check(now, key).0;
            let done = serving.complete(later, settled.context.rpc.identity());
            &&& serving.transactions.contains_key(key)
            &&& serving.transactions[key] == TransactionState::InProgress
            &&& done.transactions.contains_key(key)
            &&& done.transactions[key] == TransactionState::Completed(later)
        }),
{
    lemma_new_call_is_in_progress(t, now, call.context.rpc.identity());
}

/// A call of version 2 of the protocol is taken up with everything that the client
/// sent: transaction, program, version, procedure and arguments. It is served for
/// the caller whom the credential names, or for whom the peer is taken to be where
/// it names none.
pub proof fn lemma_call_is_taken_up(
    xid: u32,
    prog: u32,
    vers: u32,
    proc: u32,
    stamp: u32,
    machine: Seq<u8>,
    uid: u32,
    gid: u32,
    gids: Seq<u32>,
    arguments: Seq<u8>,
    peer: Peer,
    named: RpcStep,
    unnamed: RpcStep,
)
    requires
        machine.len() <= u32::MAX,
        gids.len() <= u32::MAX,
        sent_credential(stamp, machine, uid, gid, gids).len() <= u32::MAX,
        receives(
            sent_call(
                xid,
                2,
                prog,
                vers,
                proc,
                1,
                sent_credential(stamp, machine, uid, gid, gids),
                arguments,
            ),
            peer,
            named,
        ),
        receives(
            sent_call(xid, 2, prog, vers, proc, 0, Seq::empty(), arguments),
            peer,
            unnamed,
        ),
    ensures
        named matches RpcStep::Track(t) && takes_up(t, xid, prog, vers, proc, arguments, peer)
            && t.context.auth.uid == uid && t.context.auth.gid == gid && t.context.auth.gids@
            == gids,
        unnamed matches RpcStep::Track(t) && takes_up(t, xid, prog, vers, proc, arguments, peer)
            && t.context.auth.uid == peer.auth.uid && t.context.auth.gid == peer.auth.gid
            && t.context.auth.gids@ == peer.auth.gids@,
{
    let credential = sent_credential(stamp, machine, uid, gid, gids);
    lemma_credential_is_received(stamp, machine, uid, gid, gids);
    lemma_call_is_parsed(
        xid,
        2,
        prog,
        vers,
        proc,
        auth_flavor::AUTH_UNIX,
        1,
        credential,
        arguments,
    );
    lemma_call_is_parsed(
        xid,
        2,
        prog,
        vers,
        proc,
        auth_flavor::AUTH_NULL,
        0,
        Seq::empty(),
        arguments,
    );
}

/// The tracked call is the one that was sent.
pub open spec fn takes_up(
    t: TrackedCall,
    xid: u32,
    prog: u32,
    vers: u32,
    proc: u32,
    arguments: Seq<u8>,
    peer: Peer,
) -> bool {
    &&& t.context.rpc.xid == xid
    &&& t.context.rpc.client_addr == peer.client_addr
    &&& t.context.rpc.connection_incarnation == peer.connection_incarnation
    &&& t.call.prog == prog
    &&& t.call.vers == vers
    &&& t.call.proc == proc
    &&& t.arguments@ == arguments
}

/// A call of another version of the protocol is answered at once, and told which
/// version is served.
pub proof fn lemma_other_protocols_are_refused(
    xid: u32,
    rpcvers: u32,
    prog: u32,
    vers: u32,
    proc: u32,
    arguments: Seq<u8>,
    peer: Peer,
    r: RpcStep,
)
    requires
        rpcvers != 2,
        receives(sent_call(xid, rpcvers, prog, vers, proc, 0, Seq::empty(), arguments), peer, r),
    ensures
        r matches RpcStep::Reply(reply) && reply@.len() == 24 && word(reply@, 0) == xid && word(
            reply@,
            8,
        ) == 1 && word(reply@, 16) == 2 && word(reply@, 20) == 2,
{
    lemma_call_is_parsed(
        xid,
        rpcvers,
        prog,
        vers,
        proc,
        auth_flavor::AUTH_NULL,
        0,
        Seq::empty(),
        arguments,
    );
    lemma_versions_are_told(xid, 0);
}

/// A call that is new goes to its program: NFS in version 3 is served by the number
/// of the procedure, the port mapper and the mount protocol are handed on as they
/// are, and other programs and versions are told that they are not served.
pub proof fn lemma_new_calls_go_to_their_program(call: TrackedCall, r: RpcStep)
    requires
        call.proceeds(false, r),
    ensures
        call.call.prog == 100003 && call.call.vers == 3 ==> exists|step: Step<NfsCall>| #[trigger]
            call_starts(call.context.rpc.xid, call.call.proc, call.arguments@, step) && match step {
                Step::Reply(reply) => r matches RpcStep::Settle(s) && s.context == call.context
                    && (s.result matches Ok(bytes) && bytes@ == reply@),
                Step::Ask(c) => r matches RpcStep::Ask(p) && p@ == (call.context, c@),
                Step::Fail(e) => r matches RpcStep::Settle(s) && s.context == call.context
                    && s.result is Err,
                Step::Unexpected => r matches RpcStep::Settle(s) && s.result is Err,
            },
        call.call.prog == 100003 && call.call.vers != 3 ==> (r matches RpcStep::Settle(s)
            && s.context == call.context && (s.result matches Ok(reply) && reply@.len() == 32
            && word(reply@, 0) == call.context.rpc.xid && word(reply@, 20) == 2 && word(reply@, 24)
            == 3 && word(reply@, 28) == 3)),
        call.call.prog == 100000 ==> (r matches RpcStep::Portmap(f) && f.context == call.context
            && f.call == call.call && f.arguments@ == call.arguments@),
        call.call.prog == 100005 ==> (r matches RpcStep::Mount(f) && f.context == call.context
            && f.call == call.call && f.arguments@ == call.arguments@),
        call.call.prog != 100003 && call.call.prog != 100000 && call.call.prog != 100005 ==> (
        r matches RpcStep::Settle(s) && s.context == call.context && (s.result matches Ok(reply)
            && tells_refusal(reply@, call.context.rpc.xid, 1))),
{
    let xid = call.context.rpc.xid;
    lemma_versions_are_told(xid, 3);
    lemma_refusals_are_told(xid);
    if call.call.prog == 100003 {
        let step = choose|step: Step<NfsCall>| #[trigger]
            started(xid, call.call.vers, call.call.proc, call.arguments@, step) && goes_on(
                call.context,
                nfs_step(step),
                r,
            );
        if call.call.vers == 3 {
            assert(call_starts(xid, call.call.proc, call.arguments@, step));
        }
    }
}

/// A pending call asks the file system what its state asks. It takes an answer for
/// the transaction of the call, and once it has a reply, that reply settles it.
pub proof fn lemma_pending_calls_go_on(
    context: CallContext,
    state: NfsState,
    answer: FsAnswer,
    r: RpcStep,
)
    requires
        goes_on(context, state.next(context.rpc.xid, answer), r),
    ensures
        match state.next(context.rpc.xid, answer) {
            Outcome::Reply(reply) => r matches RpcStep::Settle(s) && s.context == context && (
            s.result matches Ok(bytes) && bytes@ == reply),
            Outcome::Ask(more) => r matches RpcStep::Ask(p) && p@ == (context, more),
            _ => r matches RpcStep::Settle(s) && s.context == context && s.result is Err,
        },
{
}

/// Two calls are tracked as one only if transaction, client and connection are the
/// same.
pub proof fn lemma_identities_tell_calls_apart(a: RpcRequestContext, b: RpcRequestContext)
    ensures
        a.identity() == b.identity() <==> a.xid == b.xid && a.client_addr@ == b.client_addr@
            && a.connection_incarnation == b.connection_incarnation,
        a.identity().0 == a.connection_incarnation,
        a.identity().1 == a.xid,
        a.identity().2 == a.client_addr@,
{
}

/// A message that is no call is not served: neither a reply, nor one of another
/// kind, nor one that is too short.
pub proof fn lemma_only_calls_are_served(
    xid: u32,
    kind: u32,
    behind: Seq<u8>,
    short: Seq<u8>,
    peer: Peer,
    r: RpcStep,
    q: RpcStep,
)
    requires
        kind != 0,
        receives(xdr_u32(xid) + (xdr_u32(kind) + behind), peer, r),
        short.len() < 40,
        receives(short, peer, q),
    ensures
        kind == 1 ==> r == RpcStep::Fail(RpcError::NotACall),
        kind != 1 ==> r == RpcStep::Fail(RpcError::Decode(XdrError::InvalidEnum)),
        q is Fail,
{
    u32_round_trip(xid, xdr_u32(kind) + behind);
    u32_round_trip(kind, behind);
}

} // verus!
