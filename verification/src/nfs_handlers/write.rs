//! Procedures that change the contents of a file: WRITE, COMMIT.
use super::dispatch::{is_settled, nearer, NfsCall, Procedure};
use super::inspect::MAX_NFS_IO_BYTES;
use super::{lost_reply, reply_lost, reply_wcc, wcc_reply, Outcome, Step};
use crate::nfs::{
    fattr3, fileid3, nfsstat3, post_op_attr, pre_op_attr, stable_how, wcc_data, writeverf3,
};
use crate::nfs_args::{parse_COMMIT3args, parse_WRITE3args, COMMIT3args, WRITE3args};
use crate::rpc::{garbage_args_reply, garbage_args_reply_message};
use crate::vfs::{
    CallContext, CommitRequestContext, CommitResult, FsAnswer, FsRequest, VFSCapabilities,
    WriteRequestContext, WriteResult,
};
use crate::xdr::{write_bytes, write_u32, xdr_u32, Input, XdrError};
use vstd::prelude::*;

verus! {

// ----------------------------------------------------------------------- WRITE

/// A WRITE call that is being served.
pub enum WriteCall {
    Caps { decoded: Result<WRITE3args, XdrError> },
    Handle { args: WRITE3args, stability: stable_how },
    Attr { id: fileid3, args: WRITE3args, stability: stable_how },
    Data { id: fileid3, args: WRITE3args, stability: stable_how, before: pre_op_attr },
}

/// How WRITE starts on its encoded arguments. Whether they could be decoded
/// matters only once the file system has said that it can be written.
pub open spec fn write_starts(s: Seq<u8>, r: Step<WriteCall>) -> bool {
    r matches Step::Ask(WriteCall::Caps { decoded }) && match parse_WRITE3args(s) {
        Ok((v, _)) => decoded matches Ok(args) && args@ == v,
        Err(e) => decoded == Err::<WRITE3args, XdrError>(e),
    }
}

/// Starts WRITE.
pub fn nfsproc3_write(input: Input) -> (r: Step<WriteCall>)
    ensures
        write_starts(input@, r),
{
    let mut input = input;
    Step::Ask(WriteCall::Caps { decoded: WRITE3args::deserialize(&mut input) })
}

/// What becomes of decoded arguments. Too much data is refused; a count that is
/// not the length of the data, or an unknown stability, makes the call garbage.
pub open spec fn checked_write(xid: u32, args: WRITE3args) -> Outcome<WriteCall> {
    if args.count > MAX_NFS_IO_BYTES {
        Outcome::Reply(lost_reply(xid, nfsstat3::NFS3ERR_INVAL))
    } else if args.data@.len() != args.count {
        Outcome::Reply(garbage_args_reply(xid))
    } else {
        match stable_how::of_number(args.stable) {
            None => Outcome::Reply(garbage_args_reply(xid)),
            Some(stability) => Outcome::Ask(WriteCall::Handle { args, stability }),
        }
    }
}

fn check_write(xid: u32, args: WRITE3args) -> (r: Step<WriteCall>)
    ensures
        r@ == checked_write(xid, args),
{
    if args.count > MAX_NFS_IO_BYTES {
        return Step::Reply(reply_lost(xid, nfsstat3::NFS3ERR_INVAL));
    }
    if args.data.len() != args.count as usize {
        return Step::Reply(garbage_args_reply_message(xid));
    }
    match stable_how::from_u32(args.stable) {
        None => Step::Reply(garbage_args_reply_message(xid)),
        Some(stability) => Step::Ask(WriteCall::Handle { args, stability }),
    }
}

/// The reply of a WRITE that was carried out: the file before and after, the
/// count asked for, and how far and under which verifier the data is stable.
pub open spec fn write_reply(
    xid: u32,
    before: pre_op_attr,
    count: u32,
    result: WriteResult,
) -> Seq<u8> {
    wcc_reply(
        xid,
        nfsstat3::NFS3_OK,
        wcc_data { before, after: post_op_attr::attributes(result.attributes) },
    ) + xdr_u32(count) + xdr_u32(result.committed.number()) + result.verifier@
}

impl WriteCall {
    /// How many answers at most it takes after the next one.
    pub open spec fn remaining(self) -> nat {
        match self {
            WriteCall::Caps { .. } => 3,
            WriteCall::Handle { .. } => 2,
            WriteCall::Attr { .. } => 1,
            WriteCall::Data { .. } => 0,
        }
    }

    /// It changes nothing any more.
    pub open spec fn settled(self) -> bool {
        false
    }
}

impl Procedure for WriteCall {
    open spec fn starts(xid: u32, s: Seq<u8>, r: Step<WriteCall>) -> bool {
        write_starts(s, r)
    }

    open spec fn asks<'a>(&'a self, context: &'a CallContext) -> FsRequest<'a> {
        match self {
            WriteCall::Caps { .. } => FsRequest::Capabilities,
            WriteCall::Handle { args, .. } => FsRequest::FhToId { handle: &args.file },
            WriteCall::Attr { id, .. } => FsRequest::Getattr { auth: &context.auth, id: *id },
            WriteCall::Data { id, args, stability, .. } => FsRequest::Write {
                write_context: WriteRequestContext {
                    rpc: context.rpc,
                    requested_stability: *stability,
                },
                auth: &context.auth,
                id: *id,
                offset: args.offset,
                data: &args.data,
            },
        }
    }

    open spec fn next(self, xid: u32, answer: FsAnswer) -> Outcome<WriteCall> {
        match (self, answer) {
            (WriteCall::Caps { .. }, FsAnswer::Capabilities(VFSCapabilities::ReadOnly)) =>
                Outcome::Reply(lost_reply(xid, nfsstat3::NFS3ERR_ROFS)),
            (
                WriteCall::Caps { decoded: Ok(args) },
                FsAnswer::Capabilities(VFSCapabilities::ReadWrite),
            ) => checked_write(xid, args),
            (
                WriteCall::Caps { decoded: Err(e) },
                FsAnswer::Capabilities(VFSCapabilities::ReadWrite),
            ) => Outcome::Fail(e),
            (WriteCall::Handle { args, stability }, FsAnswer::Id(Ok(id))) => Outcome::Ask(
                WriteCall::Attr { id, args, stability },
            ),
            (WriteCall::Handle { .. }, FsAnswer::Id(Err(stat))) => Outcome::Reply(
                lost_reply(xid, stat),
            ),
            (WriteCall::Attr { id, args, stability }, FsAnswer::Attr(attr)) => Outcome::Ask(
                WriteCall::Data { id, args, stability, before: pre_op_attr::of_getattr(attr) },
            ),
            (WriteCall::Data { args, before, .. }, FsAnswer::Written(Ok(result))) => Outcome::Reply(
                write_reply(xid, before, args.count, result),
            ),
            (WriteCall::Data { .. }, FsAnswer::Written(Err(stat))) => Outcome::Reply(
                lost_reply(xid, stat),
            ),
            _ => Outcome::Unexpected,
        }
    }

    open spec fn encodable(self) -> bool {
        true
    }

    open spec fn as_call(self) -> NfsCall {
        NfsCall::Write(self)
    }

    fn start(xid: u32, input: Input) -> (r: Step<WriteCall>) {
        nfsproc3_write(input)
    }

    fn request<'a>(&'a self, context: &'a CallContext) -> (r: FsRequest<'a>) {
        match self {
            WriteCall::Caps { .. } => FsRequest::Capabilities,
            WriteCall::Handle { args, .. } => FsRequest::FhToId { handle: &args.file },
            WriteCall::Attr { id, .. } => FsRequest::Getattr { auth: &context.auth, id: *id },
            WriteCall::Data { id, args, stability, .. } => FsRequest::Write {
                write_context: WriteRequestContext {
                    rpc: context.rpc.duplicate(),
                    requested_stability: *stability,
                },
                auth: &context.auth,
                id: *id,
                offset: args.offset,
                data: &args.data,
            },
        }
    }

    fn resume(self, xid: u32, answer: FsAnswer) -> (r: Step<WriteCall>) {
        match (self, answer) {
            (WriteCall::Caps { .. }, FsAnswer::Capabilities(VFSCapabilities::ReadOnly)) =>
                Step::Reply(reply_lost(xid, nfsstat3::NFS3ERR_ROFS)),
            (
                WriteCall::Caps { decoded: Ok(args) },
                FsAnswer::Capabilities(VFSCapabilities::ReadWrite),
            ) => check_write(xid, args),
            (
                WriteCall::Caps { decoded: Err(e) },
                FsAnswer::Capabilities(VFSCapabilities::ReadWrite),
            ) => Step::Fail(e),
            (WriteCall::Handle { args, stability }, FsAnswer::Id(Ok(id))) => Step::Ask(
                WriteCall::Attr { id, args, stability },
            ),
            (WriteCall::Handle { .. }, FsAnswer::Id(Err(stat))) => Step::Reply(
                reply_lost(xid, stat),
            ),
            (WriteCall::Attr { id, args, stability }, FsAnswer::Attr(attr)) => Step::Ask(
                WriteCall::Data { id, args, stability, before: pre_op_attr::from_getattr(&attr) },
            ),
            (WriteCall::Data { args, before, .. }, FsAnswer::Written(Ok(result))) => {
                let mut out = reply_wcc(
                    xid,
                    nfsstat3::NFS3_OK,
                    wcc_data { before, after: post_op_attr::attributes(result.attributes) },
                );
                write_u32(&mut out, args.count);
                write_u32(&mut out, result.committed.to_u32());
                write_bytes(&mut out, result.verifier.as_slice());
                Step::Reply(out)
            },
            (WriteCall::Data { .. }, FsAnswer::Written(Err(stat))) => Step::Reply(
                reply_lost(xid, stat),
            ),
            _ => Step::Unexpected,
        }
    }

    fn into_call(self) -> (r: NfsCall) {
        NfsCall::Write(self)
    }

    proof fn fitting_answer_is_expected(self, context: CallContext, xid: u32, answer: FsAnswer) {
    }

    proof fn answer_brings_reply_nearer(self, xid: u32, answer: FsAnswer) {
        reveal(nearer);
    }

    proof fn changes_at_most_once(self, context: CallContext, xid: u32, answer: FsAnswer) {
        reveal(is_settled);
    }

    proof fn asks_for_the_caller(self, context: CallContext) {
    }
}

/// A WRITE of acceptable arguments hands the context of the call, the stability
/// that was asked for and the data to the file system once, and what the file
/// system answers reaches the wire.
pub proof fn lemma_write_is_forwarded(
    xid: u32,
    context: CallContext,
    args: WRITE3args,
    stability: stable_how,
    id: fileid3,
    attr: Result<fattr3, nfsstat3>,
    result: WriteResult,
)
    requires
        args.count <= MAX_NFS_IO_BYTES,
        args.data@.len() == args.count,
        stable_how::of_number(args.stable) == Some(stability),
    ensures
        ({
            let before = pre_op_attr::of_getattr(attr);
            let handle = WriteCall::Handle { args, stability };
            let getattr = WriteCall::Attr { id, args, stability };
            let data = WriteCall::Data { id, args, stability, before };
            &&& WriteCall::Caps { decoded: Ok(args) }.next(
                xid,
                FsAnswer::Capabilities(VFSCapabilities::ReadWrite),
            ) == Outcome::Ask(handle)
            &&& handle.next(xid, FsAnswer::Id(Ok(id))) == Outcome::Ask(getattr)
            &&& getattr.next(xid, FsAnswer::Attr(attr)) == Outcome::Ask(data)
            &&& data.asks(&context) == (FsRequest::Write {
                write_context: WriteRequestContext {
                    rpc: context.rpc,
                    requested_stability: stability,
                },
                auth: &context.auth,
                id,
                offset: args.offset,
                data: &args.data,
            })
            &&& data.next(xid, FsAnswer::Written(Ok(result))) == Outcome::<WriteCall>::Reply(
                write_reply(xid, before, args.count, result),
            )
        }),
{
}

// ---------------------------------------------------------------------- COMMIT

/// A COMMIT call that is being served.
pub enum CommitCall {
    Caps { args: COMMIT3args },
    Handle { args: COMMIT3args },
    Attr { id: fileid3, offset: u64, count: u32 },
    Sync { id: fileid3, offset: u64, count: u32, before: pre_op_attr },
    After { id: fileid3, before: pre_op_attr, verifier: writeverf3 },
}

/// How COMMIT starts on its encoded arguments.
pub open spec fn commit_starts(s: Seq<u8>, r: Step<CommitCall>) -> bool {
    match parse_COMMIT3args(s) {
        Ok((v, _)) => r matches Step::Ask(CommitCall::Caps { args }) && args@ == v,
        Err(e) => r == Step::<CommitCall>::Fail(e),
    }
}

/// Starts COMMIT.
pub fn nfsproc3_commit(input: Input) -> (r: Step<CommitCall>)
    ensures
        commit_starts(input@, r),
{
    let mut input = input;
    match COMMIT3args::deserialize(&mut input) {
        Ok(args) => Step::Ask(CommitCall::Caps { args }),
        Err(e) => Step::Fail(e),
    }
}

/// The reply of a COMMIT that was carried out.
pub open spec fn commit_reply(xid: u32, wcc: wcc_data, verifier: Seq<u8>) -> Seq<u8> {
    wcc_reply(xid, nfsstat3::NFS3_OK, wcc) + verifier
}

impl CommitCall {
    /// How many answers at most it takes after the next one.
    pub open spec fn remaining(self) -> nat {
        match self {
            CommitCall::Caps { .. } => 4,
            CommitCall::Handle { .. } => 3,
            CommitCall::Attr { .. } => 2,
            CommitCall::Sync { .. } => 1,
            CommitCall::After { .. } => 0,
        }
    }

    /// It changes nothing any more.
    pub open spec fn settled(self) -> bool {
        self is After
    }
}

impl Procedure for CommitCall {
    open spec fn starts(xid: u32, s: Seq<u8>, r: Step<CommitCall>) -> bool {
        commit_starts(s, r)
    }

    open spec fn asks<'a>(&'a self, context: &'a CallContext) -> FsRequest<'a> {
        match self {
            CommitCall::Caps { .. } => FsRequest::Capabilities,
            CommitCall::Handle { args } => FsRequest::FhToId { handle: &args.file },
            CommitCall::Attr { id, .. } => FsRequest::Getattr { auth: &context.auth, id: *id },
            CommitCall::Sync { id, offset, count, .. } => FsRequest::Commit {
                commit_context: CommitRequestContext { rpc: context.rpc },
                auth: &context.auth,
                id: *id,
                offset: *offset,
                count: *count,
            },
            CommitCall::After { id, .. } => FsRequest::Getattr { auth: &context.auth, id: *id },
        }
    }

    open spec fn next(self, xid: u32, answer: FsAnswer) -> Outcome<CommitCall> {
        match (self, answer) {
            (CommitCall::Caps { .. }, FsAnswer::Capabilities(VFSCapabilities::ReadOnly)) =>
                Outcome::Reply(lost_reply(xid, nfsstat3::NFS3ERR_ROFS)),
            (CommitCall::Caps { args }, FsAnswer::Capabilities(VFSCapabilities::ReadWrite)) =>
                Outcome::Ask(CommitCall::Handle { args }),
            (CommitCall::Handle { args }, FsAnswer::Id(Ok(id))) => Outcome::Ask(
                CommitCall::Attr { id, offset: args.offset, count: args.count },
            ),
            (CommitCall::Handle { .. }, FsAnswer::Id(Err(stat))) => Outcome::Reply(
                lost_reply(xid, stat),
            ),
            (CommitCall::Attr { id, offset, count }, FsAnswer::Attr(attr)) => Outcome::Ask(
                CommitCall::Sync { id, offset, count, before: pre_op_attr::of_getattr(attr) },
            ),
            (CommitCall::Sync { id, before, .. }, FsAnswer::Committed(Ok(result))) => Outcome::Ask(
                CommitCall::After { id, before, verifier: result.verifier },
            ),
            (CommitCall::Sync { .. }, FsAnswer::Committed(Err(stat))) => Outcome::Reply(
                lost_reply(xid, stat),
            ),
            (CommitCall::After { before, verifier, .. }, FsAnswer::Attr(attr)) => {
                let wcc = wcc_data { before, after: post_op_attr::of_getattr(attr) };
                Outcome::Reply(commit_reply(xid, wcc, verifier@))
            },
            _ => Outcome::Unexpected,
        }
    }

    open spec fn encodable(self) -> bool {
        true
    }

    open spec fn as_call(self) -> NfsCall {
        NfsCall::Commit(self)
    }

    fn start(xid: u32, input: Input) -> (r: Step<CommitCall>) {
        nfsproc3_commit(input)
    }

    fn request<'a>(&'a self, context: &'a CallContext) -> (r: FsRequest<'a>) {
        match self {
            CommitCall::Caps { .. } => FsRequest::Capabilities,
            CommitCall::Handle { args } => FsRequest::FhToId { handle: &args.file },
            CommitCall::Attr { id, .. } => FsRequest::Getattr { auth: &context.auth, id: *id },
            CommitCall::Sync { id, offset, count, .. } => FsRequest::Commit {
                commit_context: CommitRequestContext { rpc: context.rpc.duplicate() },
                auth: &context.auth,
                id: *id,
                offset: *offset,
                count: *count,
            },
            CommitCall::After { id, .. } => FsRequest::Getattr { auth: &context.auth, id: *id },
        }
    }

    fn resume(self, xid: u32, answer: FsAnswer) -> (r: Step<CommitCall>) {
        match (self, answer) {
            (CommitCall::Caps { .. }, FsAnswer::Capabilities(VFSCapabilities::ReadOnly)) =>
                Step::Reply(reply_lost(xid, nfsstat3::NFS3ERR_ROFS)),
            (CommitCall::Caps { args }, FsAnswer::Capabilities(VFSCapabilities::ReadWrite)) =>
                Step::Ask(CommitCall::Handle { args }),
            (CommitCall::Handle { args }, FsAnswer::Id(Ok(id))) => Step::Ask(
                CommitCall::Attr { id, offset: args.offset, count: args.count },
            ),
            (CommitCall::Handle { .. }, FsAnswer::Id(Err(stat))) => Step::Reply(
                reply_lost(xid, stat),
            ),
            (CommitCall::Attr { id, offset, count }, FsAnswer::Attr(attr)) => Step::Ask(
                CommitCall::Sync { id, offset, count, before: pre_op_attr::from_getattr(&attr) },
            ),
            (CommitCall::Sync { id, before, .. }, FsAnswer::Committed(Ok(result))) => Step::Ask(
                CommitCall::After { id, before, verifier: result.verifier },
            ),
            (CommitCall::Sync { .. }, FsAnswer::Committed(Err(stat))) => Step::Reply(
                reply_lost(xid, stat),
            ),
            (CommitCall::After { before, verifier, .. }, FsAnswer::Attr(attr)) => {
                let mut out = reply_wcc(
                    xid,
                    nfsstat3::NFS3_OK,
                    wcc_data { before, after: post_op_attr::from_getattr(&attr) },
                );
                write_bytes(&mut out, verifier.as_slice());
                Step::Reply(out)
            },
            _ => Step::Unexpected,
        }
    }

    fn into_call(self) -> (r: NfsCall) {
        NfsCall::Commit(self)
    }

    proof fn fitting_answer_is_expected(self, context: CallContext, xid: u32, answer: FsAnswer) {
    }

    proof fn answer_brings_reply_nearer(self, xid: u32, answer: FsAnswer) {
        reveal(nearer);
    }

    proof fn changes_at_most_once(self, context: CallContext, xid: u32, answer: FsAnswer) {
        reveal(is_settled);
    }

    proof fn asks_for_the_caller(self, context: CallContext) {
    }
}

/// A COMMIT hands the context of the call to the file system once, and the
/// verifier that the file system answers reaches the wire.
pub proof fn lemma_commit_is_forwarded(
    xid: u32,
    context: CallContext,
    args: COMMIT3args,
    id: fileid3,
    attr: Result<fattr3, nfsstat3>,
    result: CommitResult,
    after: Result<fattr3, nfsstat3>,
)
    ensures
        ({
            let before = pre_op_attr::of_getattr(attr);
            let handle = CommitCall::Handle { args };
            let getattr = CommitCall::Attr { id, offset: args.offset, count: args.count };
            let sync = CommitCall::Sync { id, offset: args.offset, count: args.count, before };
            let done = CommitCall::After { id, before, verifier: result.verifier };
            &&& CommitCall::Caps { args }.next(
                xid,
                FsAnswer::Capabilities(VFSCapabilities::ReadWrite),
            ) == Outcome::Ask(handle)
            &&& handle.next(xid, FsAnswer::Id(Ok(id))) == Outcome::Ask(getattr)
            &&& getattr.next(xid, FsAnswer::Attr(attr)) == Outcome::Ask(sync)
            &&& sync.asks(&context) == (FsRequest::Commit {
                commit_context: CommitRequestContext { rpc: context.rpc },
                auth: &context.auth,
                id,
                offset: args.offset,
                count: args.count,
            })
            &&& sync.next(xid, FsAnswer::Committed(Ok(result))) == Outcome::Ask(done)
            &&& done.next(xid, FsAnswer::Attr(after)) == Outcome::<CommitCall>::Reply(
                commit_reply(
                    xid,
                    wcc_data { before, after: post_op_attr::of_getattr(after) },
                    result.verifier@,
                ),
            )
        }),
{
}

} // verus!
