//! Which procedure serves a call, and the calls that are being served.
//!
//! `next_of` and `begun` tie a call to its procedure. They are opaque so that a
//! proof about calls does not unfold every procedure; `reveal` shows what they say.
use super::change::{rename_lost, LinkCall, RemoveCall, RenameCall, SetattrCall};
use super::create::{CreateCall, MkdirCall, MknodCall, SymlinkCall};
use super::fs::{FsinfoCall, FsstatCall, PathconfCall};
use super::inspect::{AccessCall, GetattrCall, LookupCall, ReadCall, ReadlinkCall};
use super::readdir::ReaddirCall;
use super::readdirplus::{
    nfsproc3_readdirplus,
    readdirplus_starts,
    ReaddirplusCall,
    ReaddirplusView,
};
use super::write::{CommitCall, WriteCall};
use super::{lost_reply, nfsproc3_null, Outcome, Step};
use crate::client::{lemma_bare_success_is_told, lemma_refusals_are_told, tells_refusal};
use crate::nfs::{nfsstat3, VERSION};
use crate::rpc::{
    proc_unavail_reply, proc_unavail_reply_message, prog_mismatch_reply,
    prog_mismatch_reply_message, success_reply,
};
use crate::vfs::{CallContext, FsAnswer, FsRequest, VFSCapabilities};
use crate::xdr::Input;
use vstd::prelude::*;

verus! {

/// The procedures of the NFS program.
#[derive(Clone, Copy, Debug, PartialEq, Eq, Structural)]
pub enum NFSProgram {
    NFSPROC3_NULL,
    NFSPROC3_GETATTR,
    NFSPROC3_SETATTR,
    NFSPROC3_LOOKUP,
    NFSPROC3_ACCESS,
    NFSPROC3_READLINK,
    NFSPROC3_READ,
    NFSPROC3_WRITE,
    NFSPROC3_CREATE,
    NFSPROC3_MKDIR,
    NFSPROC3_SYMLINK,
    NFSPROC3_MKNOD,
    NFSPROC3_REMOVE,
    NFSPROC3_RMDIR,
    NFSPROC3_RENAME,
    NFSPROC3_LINK,
    NFSPROC3_READDIR,
    NFSPROC3_READDIRPLUS,
    NFSPROC3_FSSTAT,
    NFSPROC3_FSINFO,
    NFSPROC3_PATHCONF,
    NFSPROC3_COMMIT,
    INVALID,
}

impl NFSProgram {
    /// The procedure that a number names.
    pub open spec fn of_number(n: u32) -> NFSProgram {
        if n == 0 {
            NFSProgram::NFSPROC3_NULL
        } else if n == 1 {
            NFSProgram::NFSPROC3_GETATTR
        } else if n == 2 {
            NFSProgram::NFSPROC3_SETATTR
        } else if n == 3 {
            NFSProgram::NFSPROC3_LOOKUP
        } else if n == 4 {
            NFSProgram::NFSPROC3_ACCESS
        } else if n == 5 {
            NFSProgram::NFSPROC3_READLINK
        } else if n == 6 {
            NFSProgram::NFSPROC3_READ
        } else if n == 7 {
            NFSProgram::NFSPROC3_WRITE
        } else if n == 8 {
            NFSProgram::NFSPROC3_CREATE
        } else if n == 9 {
            NFSProgram::NFSPROC3_MKDIR
        } else if n == 10 {
            NFSProgram::NFSPROC3_SYMLINK
        } else if n == 11 {
            NFSProgram::NFSPROC3_MKNOD
        } else if n == 12 {
            NFSProgram::NFSPROC3_REMOVE
        } else if n == 13 {
            NFSProgram::NFSPROC3_RMDIR
        } else if n == 14 {
            NFSProgram::NFSPROC3_RENAME
        } else if n == 15 {
            NFSProgram::NFSPROC3_LINK
        } else if n == 16 {
            NFSProgram::NFSPROC3_READDIR
        } else if n == 17 {
            NFSProgram::NFSPROC3_READDIRPLUS
        } else if n == 18 {
            NFSProgram::NFSPROC3_FSSTAT
        } else if n == 19 {
            NFSProgram::NFSPROC3_FSINFO
        } else if n == 20 {
            NFSProgram::NFSPROC3_PATHCONF
        } else if n == 21 {
            NFSProgram::NFSPROC3_COMMIT
        } else {
            NFSProgram::INVALID
        }
    }

    pub fn from_u32(n: u32) -> (r: NFSProgram)
        ensures
            r == NFSProgram::of_number(n),
    {
        match n {
            0 => NFSProgram::NFSPROC3_NULL,
            1 => NFSProgram::NFSPROC3_GETATTR,
            2 => NFSProgram::NFSPROC3_SETATTR,
            3 => NFSProgram::NFSPROC3_LOOKUP,
            4 => NFSProgram::NFSPROC3_ACCESS,
            5 => NFSProgram::NFSPROC3_READLINK,
            6 => NFSProgram::NFSPROC3_READ,
            7 => NFSProgram::NFSPROC3_WRITE,
            8 => NFSProgram::NFSPROC3_CREATE,
            9 => NFSProgram::NFSPROC3_MKDIR,
            10 => NFSProgram::NFSPROC3_SYMLINK,
            11 => NFSProgram::NFSPROC3_MKNOD,
            12 => NFSProgram::NFSPROC3_REMOVE,
            13 => NFSProgram::NFSPROC3_RMDIR,
            14 => NFSProgram::NFSPROC3_RENAME,
            15 => NFSProgram::NFSPROC3_LINK,
            16 => NFSProgram::NFSPROC3_READDIR,
            17 => NFSProgram::NFSPROC3_READDIRPLUS,
            18 => NFSProgram::NFSPROC3_FSSTAT,
            19 => NFSProgram::NFSPROC3_FSINFO,
            20 => NFSProgram::NFSPROC3_PATHCONF,
            21 => NFSProgram::NFSPROC3_COMMIT,
            _ => NFSProgram::INVALID,
        }
    }
}

// ----------------------------------------------------------------- procedures

/// A procedure that is being served, as a machine.
pub trait Procedure: Sized {
    /// How the procedure starts on its encoded arguments.
    spec fn starts(xid: u32, s: Seq<u8>, r: Step<Self>) -> bool;

    /// What it asks of the file system.
    spec fn asks<'a>(&'a self, context: &'a CallContext) -> FsRequest<'a>;

    /// What it does with the answer.
    spec fn next(self, xid: u32, answer: FsAnswer) -> Outcome<Self>;

    /// It holds nothing that cannot be encoded.
    spec fn encodable(self) -> bool;

    /// The same, as a call.
    spec fn as_call(self) -> NfsCall;

    /// Starts the procedure.
    fn start(xid: u32, input: Input) -> (r: Step<Self>)
        ensures
            Self::starts(xid, input@, r),
            r matches Step::Ask(p) ==> p.encodable(),
    ;

    /// Makes the request that is asked of the file system.
    fn request<'a>(&'a self, context: &'a CallContext) -> (r: FsRequest<'a>)
        ensures
            r == self.asks(context),
    ;

    /// Takes the answer.
    fn resume(self, xid: u32, answer: FsAnswer) -> (r: Step<Self>)
        requires
            self.encodable(),
            answer.encodable(),
        ensures
            r@ == self.next(xid, answer),
            r matches Step::Ask(p) ==> p.encodable(),
    ;

    /// Makes a call of the procedure.
    fn into_call(self) -> (r: NfsCall)
        ensures
            r == self.as_call(),
            self.encodable() ==> r@.encodable(),
    ;

    /// An answer of the kind that was asked for is never unexpected.
    proof fn fitting_answer_is_expected(self, context: CallContext, xid: u32, answer: FsAnswer)
        requires
            answer.fits(self.asks(&context)),
        ensures
            !(self.next(xid, answer) is Unexpected),
    ;

    /// Each answer brings the reply nearer.
    proof fn answer_brings_reply_nearer(self, xid: u32, answer: FsAnswer)
        ensures
            self.next(xid, answer) matches Outcome::Ask(p) ==> nearer(
                p.as_call()@,
                self.as_call()@,
            ),
    ;

    /// Once a change has been asked for, or if none ever is, nothing is changed
    /// any more.
    proof fn changes_at_most_once(self, context: CallContext, xid: u32, answer: FsAnswer)
        ensures
            is_settled(self.as_call()@) ==> !self.asks(&context).mutates(),
            is_settled(self.as_call()@) || self.asks(&context).mutates() ==> (self.next(
                xid,
                answer,
            ) matches Outcome::Ask(p) ==> is_settled(p.as_call()@)),
    ;

    /// What is asked is asked for the caller.
    proof fn asks_for_the_caller(self, context: CallContext)
        ensures
            self.asks(&context).caller() is None || self.asks(&context).caller() == Some(
                context.auth,
            ),
    ;
}

// ---------------------------------------------------------------------- calls

/// A call that is being served.
pub enum NfsCall {
    Getattr(GetattrCall),
    Setattr(SetattrCall),
    Lookup(LookupCall),
    Access(AccessCall),
    Readlink(ReadlinkCall),
    Read(ReadCall),
    Write(WriteCall),
    Create(CreateCall),
    Mkdir(MkdirCall),
    Symlink(SymlinkCall),
    Mknod(MknodCall),
    Remove(RemoveCall),
    Rename(RenameCall),
    Link(LinkCall),
    Readdir(ReaddirCall),
    Readdirplus(ReaddirplusCall),
    Fsstat(FsstatCall),
    Fsinfo(FsinfoCall),
    Pathconf(PathconfCall),
    Commit(CommitCall),
}

/// The states of the calls that are being served.
pub enum NfsState {
    Getattr(GetattrCall),
    Setattr(SetattrCall),
    Lookup(LookupCall),
    Access(AccessCall),
    Readlink(ReadlinkCall),
    Read(ReadCall),
    Write(WriteCall),
    Create(CreateCall),
    Mkdir(MkdirCall),
    Symlink(SymlinkCall),
    Mknod(MknodCall),
    Remove(RemoveCall),
    Rename(RenameCall),
    Link(LinkCall),
    Readdir(ReaddirCall),
    Readdirplus(ReaddirplusView),
    Fsstat(FsstatCall),
    Fsinfo(FsinfoCall),
    Pathconf(PathconfCall),
    Commit(CommitCall),
}

impl View for NfsCall {
    type V = NfsState;

    open spec fn view(&self) -> NfsState {
        match *self {
            NfsCall::Getattr(c) => NfsState::Getattr(c),
            NfsCall::Setattr(c) => NfsState::Setattr(c),
            NfsCall::Lookup(c) => NfsState::Lookup(c),
            NfsCall::Access(c) => NfsState::Access(c),
            NfsCall::Readlink(c) => NfsState::Readlink(c),
            NfsCall::Read(c) => NfsState::Read(c),
            NfsCall::Write(c) => NfsState::Write(c),
            NfsCall::Create(c) => NfsState::Create(c),
            NfsCall::Mkdir(c) => NfsState::Mkdir(c),
            NfsCall::Symlink(c) => NfsState::Symlink(c),
            NfsCall::Mknod(c) => NfsState::Mknod(c),
            NfsCall::Remove(c) => NfsState::Remove(c),
            NfsCall::Rename(c) => NfsState::Rename(c),
            NfsCall::Link(c) => NfsState::Link(c),
            NfsCall::Readdir(c) => NfsState::Readdir(c),
            NfsCall::Readdirplus(c) => NfsState::Readdirplus(c@),
            NfsCall::Fsstat(c) => NfsState::Fsstat(c),
            NfsCall::Fsinfo(c) => NfsState::Fsinfo(c),
            NfsCall::Pathconf(c) => NfsState::Pathconf(c),
            NfsCall::Commit(c) => NfsState::Commit(c),
        }
    }
}

/// A step of a call, by its state.
pub open spec fn nfs_step(step: Step<NfsCall>) -> Outcome<NfsState> {
    match step {
        Step::Reply(bytes) => Outcome::Reply(bytes@),
        Step::Ask(call) => Outcome::Ask(call@),
        Step::Fail(e) => Outcome::Fail(e),
        Step::Unexpected => Outcome::Unexpected,
    }
}

/// What a procedure does next, as what a call does next.
#[verifier::opaque]
pub open spec fn next_of<P: Procedure>(p: P, xid: u32, answer: FsAnswer) -> Outcome<NfsState> {
    match p.next(xid, answer) {
        Outcome::Reply(bytes) => Outcome::Reply(bytes),
        Outcome::Ask(q) => Outcome::Ask(q.as_call()@),
        Outcome::Fail(e) => Outcome::Fail(e),
        Outcome::Unexpected => Outcome::Unexpected,
    }
}

/// What READDIRPLUS does next, as what a call does next.
#[verifier::opaque]
pub open spec fn next_of_plus(p: ReaddirplusView, xid: u32, answer: FsAnswer) -> Outcome<
    NfsState,
> {
    match p.next(xid, answer) {
        Outcome::Reply(bytes) => Outcome::Reply(bytes),
        Outcome::Ask(q) => Outcome::Ask(NfsState::Readdirplus(q)),
        Outcome::Fail(e) => Outcome::Fail(e),
        Outcome::Unexpected => Outcome::Unexpected,
    }
}

/// How near READDIRPLUS is to its reply: the stages left, and in the last one
/// the entries left.
pub open spec fn plus_rank(p: ReaddirplusView) -> (nat, nat) {
    match p {
        ReaddirplusView::Handle { .. } => (3, 0),
        ReaddirplusView::Attr { .. } => (2, 0),
        ReaddirplusView::List { .. } => (1, 0),
        ReaddirplusView::Fill { filling } => (
            0,
            (if filling.written < filling.entries.len() {
                filling.entries.len() - filling.written
            } else {
                0
            }) as nat,
        ),
    }
}

impl NfsState {
    /// What the call asks of the file system.
    pub open spec fn asks<'a>(&'a self, context: &'a CallContext) -> FsRequest<'a> {
        match self {
            NfsState::Getattr(c) => c.asks(context),
            NfsState::Setattr(c) => c.asks(context),
            NfsState::Lookup(c) => c.asks(context),
            NfsState::Access(c) => c.asks(context),
            NfsState::Readlink(c) => c.asks(context),
            NfsState::Read(c) => c.asks(context),
            NfsState::Write(c) => c.asks(context),
            NfsState::Create(c) => c.asks(context),
            NfsState::Mkdir(c) => c.asks(context),
            NfsState::Symlink(c) => c.asks(context),
            NfsState::Mknod(c) => c.asks(context),
            NfsState::Remove(c) => c.asks(context),
            NfsState::Rename(c) => c.asks(context),
            NfsState::Link(c) => c.asks(context),
            NfsState::Readdir(c) => c.asks(context),
            NfsState::Readdirplus(c) => c.asks(context),
            NfsState::Fsstat(c) => c.asks(context),
            NfsState::Fsinfo(c) => c.asks(context),
            NfsState::Pathconf(c) => c.asks(context),
            NfsState::Commit(c) => c.asks(context),
        }
    }

    /// What the call does with the answer.
    pub open spec fn next(self, xid: u32, answer: FsAnswer) -> Outcome<NfsState> {
        match self {
            NfsState::Getattr(c) => next_of(c, xid, answer),
            NfsState::Setattr(c) => next_of(c, xid, answer),
            NfsState::Lookup(c) => next_of(c, xid, answer),
            NfsState::Access(c) => next_of(c, xid, answer),
            NfsState::Readlink(c) => next_of(c, xid, answer),
            NfsState::Read(c) => next_of(c, xid, answer),
            NfsState::Write(c) => next_of(c, xid, answer),
            NfsState::Create(c) => next_of(c, xid, answer),
            NfsState::Mkdir(c) => next_of(c, xid, answer),
            NfsState::Symlink(c) => next_of(c, xid, answer),
            NfsState::Mknod(c) => next_of(c, xid, answer),
            NfsState::Remove(c) => next_of(c, xid, answer),
            NfsState::Rename(c) => next_of(c, xid, answer),
            NfsState::Link(c) => next_of(c, xid, answer),
            NfsState::Readdir(c) => next_of(c, xid, answer),
            NfsState::Readdirplus(c) => next_of_plus(c, xid, answer),
            NfsState::Fsstat(c) => next_of(c, xid, answer),
            NfsState::Fsinfo(c) => next_of(c, xid, answer),
            NfsState::Pathconf(c) => next_of(c, xid, answer),
            NfsState::Commit(c) => next_of(c, xid, answer),
        }
    }

    /// The call holds nothing that cannot be encoded.
    pub open spec fn encodable(self) -> bool {
        self matches NfsState::Mknod(c) ==> c.handle_fits()
    }

    /// How near the call is to its reply.
    pub open spec fn rank(self) -> (nat, nat) {
        match self {
            NfsState::Getattr(c) => (c.remaining(), 0),
            NfsState::Setattr(c) => (c.remaining(), 0),
            NfsState::Lookup(c) => (c.remaining(), 0),
            NfsState::Access(c) => (c.remaining(), 0),
            NfsState::Readlink(c) => (c.remaining(), 0),
            NfsState::Read(c) => (c.remaining(), 0),
            NfsState::Write(c) => (c.remaining(), 0),
            NfsState::Create(c) => (c.remaining(), 0),
            NfsState::Mkdir(c) => (c.remaining(), 0),
            NfsState::Symlink(c) => (c.remaining(), 0),
            NfsState::Mknod(c) => (c.remaining(), 0),
            NfsState::Remove(c) => (c.remaining(), 0),
            NfsState::Rename(c) => (c.remaining(), 0),
            NfsState::Link(c) => (c.remaining(), 0),
            NfsState::Readdir(c) => (c.remaining(), 0),
            NfsState::Readdirplus(c) => plus_rank(c),
            NfsState::Fsstat(c) => (c.remaining(), 0),
            NfsState::Fsinfo(c) => (c.remaining(), 0),
            NfsState::Pathconf(c) => (c.remaining(), 0),
            NfsState::Commit(c) => (c.remaining(), 0),
        }
    }
}

fn advance<P: Procedure>(p: P, xid: u32, answer: FsAnswer) -> (r: Step<NfsCall>)
    requires
        p.encodable(),
        answer.encodable(),
    ensures
        nfs_step(r) == next_of(p, xid, answer),
        r matches Step::Ask(call) ==> call@.encodable(),
{
    reveal(next_of);
    match p.resume(xid, answer) {
        Step::Reply(bytes) => Step::Reply(bytes),
        Step::Ask(q) => Step::Ask(q.into_call()),
        Step::Fail(e) => Step::Fail(e),
        Step::Unexpected => Step::Unexpected,
    }
}

fn advance_plus(p: ReaddirplusCall, xid: u32, answer: FsAnswer) -> (r: Step<NfsCall>)
    requires
        answer.encodable(),
    ensures
        nfs_step(r) == next_of_plus(p@, xid, answer),
        r matches Step::Ask(call) ==> call@.encodable(),
{
    reveal(next_of_plus);
    match p.resume(xid, answer) {
        Step::Reply(bytes) => Step::Reply(bytes),
        Step::Ask(q) => Step::Ask(NfsCall::Readdirplus(q)),
        Step::Fail(e) => Step::Fail(e),
        Step::Unexpected => Step::Unexpected,
    }
}

impl NfsCall {
    /// What the call asks of the file system.
    pub fn request<'a>(&'a self, context: &'a CallContext) -> (r: FsRequest<'a>)
        ensures
            r == self@.asks(context),
    {
        match self {
            NfsCall::Getattr(c) => c.request(context),
            NfsCall::Setattr(c) => c.request(context),
            NfsCall::Lookup(c) => c.request(context),
            NfsCall::Access(c) => c.request(context),
            NfsCall::Readlink(c) => c.request(context),
            NfsCall::Read(c) => c.request(context),
            NfsCall::Write(c) => c.request(context),
            NfsCall::Create(c) => c.request(context),
            NfsCall::Mkdir(c) => c.request(context),
            NfsCall::Symlink(c) => c.request(context),
            NfsCall::Mknod(c) => c.request(context),
            NfsCall::Remove(c) => c.request(context),
            NfsCall::Rename(c) => c.request(context),
            NfsCall::Link(c) => c.request(context),
            NfsCall::Readdir(c) => c.request(context),
            NfsCall::Readdirplus(c) => c.request(context),
            NfsCall::Fsstat(c) => c.request(context),
            NfsCall::Fsinfo(c) => c.request(context),
            NfsCall::Pathconf(c) => c.request(context),
            NfsCall::Commit(c) => c.request(context),
        }
    }

    /// Takes the answer.
    pub fn resume(self, xid: u32, answer: FsAnswer) -> (r: Step<NfsCall>)
        requires
            self@.encodable(),
            answer.encodable(),
        ensures
            nfs_step(r) == self@.next(xid, answer),
            r matches Step::Ask(call) ==> call@.encodable(),
    {
        match self {
            NfsCall::Getattr(c) => advance(c, xid, answer),
            NfsCall::Setattr(c) => advance(c, xid, answer),
            NfsCall::Lookup(c) => advance(c, xid, answer),
            NfsCall::Access(c) => advance(c, xid, answer),
            NfsCall::Readlink(c) => advance(c, xid, answer),
            NfsCall::Read(c) => advance(c, xid, answer),
            NfsCall::Write(c) => advance(c, xid, answer),
            NfsCall::Create(c) => advance(c, xid, answer),
            NfsCall::Mkdir(c) => advance(c, xid, answer),
            NfsCall::Symlink(c) => advance(c, xid, answer),
            NfsCall::Mknod(c) => advance(c, xid, answer),
            NfsCall::Remove(c) => advance(c, xid, answer),
            NfsCall::Rename(c) => advance(c, xid, answer),
            NfsCall::Link(c) => advance(c, xid, answer),
            NfsCall::Readdir(c) => advance(c, xid, answer),
            NfsCall::Readdirplus(c) => advance_plus(c, xid, answer),
            NfsCall::Fsstat(c) => advance(c, xid, answer),
            NfsCall::Fsinfo(c) => advance(c, xid, answer),
            NfsCall::Pathconf(c) => advance(c, xid, answer),
            NfsCall::Commit(c) => advance(c, xid, answer),
        }
    }
}

// ------------------------------------------------------------------- dispatch

/// A procedure has started on its encoded arguments.
#[verifier::opaque]
pub open spec fn begun<P: Procedure>(xid: u32, s: Seq<u8>, r: Step<NfsCall>) -> bool {
    exists|start: Step<P>| #[trigger]
        P::starts(xid, s, start) && match start {
            Step::Reply(bytes) => r == Step::<NfsCall>::Reply(bytes),
            Step::Ask(p) => r == Step::Ask(p.as_call()),
            Step::Fail(e) => r == Step::<NfsCall>::Fail(e),
            Step::Unexpected => r == Step::<NfsCall>::Unexpected,
        }
}

/// READDIRPLUS has started on its encoded arguments.
#[verifier::opaque]
pub open spec fn begun_plus(s: Seq<u8>, r: Step<NfsCall>) -> bool {
    exists|start: Step<ReaddirplusCall>| #[trigger]
        readdirplus_starts(s, start) && match start {
            Step::Reply(bytes) => r == Step::<NfsCall>::Reply(bytes),
            Step::Ask(p) => r == Step::Ask(NfsCall::Readdirplus(p)),
            Step::Fail(e) => r == Step::<NfsCall>::Fail(e),
            Step::Unexpected => r == Step::<NfsCall>::Unexpected,
        }
}

fn begin<P: Procedure>(xid: u32, input: Input) -> (r: Step<NfsCall>)
    ensures
        begun::<P>(xid, input@, r),
        r matches Step::Ask(call) ==> call@.encodable(),
{
    reveal(begun);
    match P::start(xid, input) {
        Step::Reply(bytes) => Step::Reply(bytes),
        Step::Ask(p) => Step::Ask(p.into_call()),
        Step::Fail(e) => Step::Fail(e),
        Step::Unexpected => Step::Unexpected,
    }
}

fn begin_plus(input: Input) -> (r: Step<NfsCall>)
    ensures
        begun_plus(input@, r),
        r matches Step::Ask(call) ==> call@.encodable(),
{
    reveal(begun_plus);
    match nfsproc3_readdirplus(input) {
        Step::Reply(bytes) => Step::Reply(bytes),
        Step::Ask(p) => Step::Ask(NfsCall::Readdirplus(p)),
        Step::Fail(e) => Step::Fail(e),
        Step::Unexpected => Step::Unexpected,
    }
}

/// How a call starts, by the number of its procedure and its encoded arguments.
/// RMDIR is served as REMOVE.
pub open spec fn call_starts(xid: u32, proc: u32, s: Seq<u8>, r: Step<NfsCall>) -> bool {
    match NFSProgram::of_number(proc) {
        NFSProgram::NFSPROC3_NULL => nfs_step(r) == Outcome::<NfsState>::Reply(success_reply(xid)),
        NFSProgram::NFSPROC3_GETATTR => begun::<GetattrCall>(xid, s, r),
        NFSProgram::NFSPROC3_SETATTR => begun::<SetattrCall>(xid, s, r),
        NFSProgram::NFSPROC3_LOOKUP => begun::<LookupCall>(xid, s, r),
        NFSProgram::NFSPROC3_ACCESS => begun::<AccessCall>(xid, s, r),
        NFSProgram::NFSPROC3_READLINK => begun::<ReadlinkCall>(xid, s, r),
        NFSProgram::NFSPROC3_READ => begun::<ReadCall>(xid, s, r),
        NFSProgram::NFSPROC3_WRITE => begun::<WriteCall>(xid, s, r),
        NFSProgram::NFSPROC3_CREATE => begun::<CreateCall>(xid, s, r),
        NFSProgram::NFSPROC3_MKDIR => begun::<MkdirCall>(xid, s, r),
        NFSProgram::NFSPROC3_SYMLINK => begun::<SymlinkCall>(xid, s, r),
        NFSProgram::NFSPROC3_MKNOD => begun::<MknodCall>(xid, s, r),
        NFSProgram::NFSPROC3_REMOVE => begun::<RemoveCall>(xid, s, r),
        NFSProgram::NFSPROC3_RMDIR => begun::<RemoveCall>(xid, s, r),
        NFSProgram::NFSPROC3_RENAME => begun::<RenameCall>(xid, s, r),
        NFSProgram::NFSPROC3_LINK => begun::<LinkCall>(xid, s, r),
        NFSProgram::NFSPROC3_READDIR => begun::<ReaddirCall>(xid, s, r),
        NFSProgram::NFSPROC3_READDIRPLUS => begun_plus(s, r),
        NFSProgram::NFSPROC3_FSSTAT => begun::<FsstatCall>(xid, s, r),
        NFSProgram::NFSPROC3_FSINFO => begun::<FsinfoCall>(xid, s, r),
        NFSProgram::NFSPROC3_PATHCONF => begun::<PathconfCall>(xid, s, r),
        NFSProgram::NFSPROC3_COMMIT => begun::<CommitCall>(xid, s, r),
        NFSProgram::INVALID => nfs_step(r) == Outcome::<NfsState>::Reply(proc_unavail_reply(xid)),
    }
}

/// Starts a call of the NFS program.
pub fn handle_nfs(xid: u32, vers: u32, proc: u32, input: Input) -> (r: Step<NfsCall>)
    ensures
        if vers != VERSION {
            nfs_step(r) == Outcome::<NfsState>::Reply(prog_mismatch_reply(xid, VERSION))
        } else {
            call_starts(xid, proc, input@, r)
        },
        r matches Step::Ask(call) ==> call@.encodable(),
{
    if vers != VERSION {
        return Step::Reply(prog_mismatch_reply_message(xid, VERSION));
    }
    match NFSProgram::from_u32(proc) {
        NFSProgram::NFSPROC3_NULL => {
            let mut output: Vec<u8> = Vec::new();
            nfsproc3_null(xid, &mut output);
            assert(output@ =~= success_reply(xid));
            Step::Reply(output)
        },
        NFSProgram::NFSPROC3_GETATTR => begin::<GetattrCall>(xid, input),
        NFSProgram::NFSPROC3_SETATTR => begin::<SetattrCall>(xid, input),
        NFSProgram::NFSPROC3_LOOKUP => begin::<LookupCall>(xid, input),
        NFSProgram::NFSPROC3_ACCESS => begin::<AccessCall>(xid, input),
        NFSProgram::NFSPROC3_READLINK => begin::<ReadlinkCall>(xid, input),
        NFSProgram::NFSPROC3_READ => begin::<ReadCall>(xid, input),
        NFSProgram::NFSPROC3_WRITE => begin::<WriteCall>(xid, input),
        NFSProgram::NFSPROC3_CREATE => begin::<CreateCall>(xid, input),
        NFSProgram::NFSPROC3_MKDIR => begin::<MkdirCall>(xid, input),
        NFSProgram::NFSPROC3_SYMLINK => begin::<SymlinkCall>(xid, input),
        NFSProgram::NFSPROC3_MKNOD => begin::<MknodCall>(xid, input),
        NFSProgram::NFSPROC3_REMOVE => begin::<RemoveCall>(xid, input),
        NFSProgram::NFSPROC3_RMDIR => begin::<RemoveCall>(xid, input),
        NFSProgram::NFSPROC3_RENAME => begin::<RenameCall>(xid, input),
        NFSProgram::NFSPROC3_LINK => begin::<LinkCall>(xid, input),
        NFSProgram::NFSPROC3_READDIR => begin::<ReaddirCall>(xid, input),
        NFSProgram::NFSPROC3_READDIRPLUS => begin_plus(input),
        NFSProgram::NFSPROC3_FSSTAT => begin::<FsstatCall>(xid, input),
        NFSProgram::NFSPROC3_FSINFO => begin::<FsinfoCall>(xid, input),
        NFSProgram::NFSPROC3_PATHCONF => begin::<PathconfCall>(xid, input),
        NFSProgram::NFSPROC3_COMMIT => begin::<CommitCall>(xid, input),
        NFSProgram::INVALID => Step::Reply(proc_unavail_reply_message(xid)),
    }
}

// ----------------------------------------------------------------------- laws

proof fn answer_is_expected<P: Procedure>(p: P, context: CallContext, xid: u32, answer: FsAnswer)
    requires
        answer.fits(p.asks(&context)),
    ensures
        !(next_of(p, xid, answer) is Unexpected),
{
    reveal(next_of);
    p.fitting_answer_is_expected(context, xid, answer);
}

proof fn plus_answer_is_expected(
    p: ReaddirplusView,
    context: CallContext,
    xid: u32,
    answer: FsAnswer,
)
    requires
        answer.fits(p.asks(&context)),
    ensures
        !(next_of_plus(p, xid, answer) is Unexpected),
{
    reveal(next_of_plus);
}

/// An answer of the kind that was asked for is never unexpected.
pub proof fn lemma_fitting_answer_is_expected(
    state: NfsState,
    context: CallContext,
    xid: u32,
    answer: FsAnswer,
)
    requires
        answer.fits(state.asks(&context)),
    ensures
        !(state.next(xid, answer) is Unexpected),
{
    match state {
        NfsState::Getattr(c) => answer_is_expected(c, context, xid, answer),
        NfsState::Setattr(c) => answer_is_expected(c, context, xid, answer),
        NfsState::Lookup(c) => answer_is_expected(c, context, xid, answer),
        NfsState::Access(c) => answer_is_expected(c, context, xid, answer),
        NfsState::Readlink(c) => answer_is_expected(c, context, xid, answer),
        NfsState::Read(c) => answer_is_expected(c, context, xid, answer),
        NfsState::Write(c) => answer_is_expected(c, context, xid, answer),
        NfsState::Create(c) => answer_is_expected(c, context, xid, answer),
        NfsState::Mkdir(c) => answer_is_expected(c, context, xid, answer),
        NfsState::Symlink(c) => answer_is_expected(c, context, xid, answer),
        NfsState::Mknod(c) => answer_is_expected(c, context, xid, answer),
        NfsState::Remove(c) => answer_is_expected(c, context, xid, answer),
        NfsState::Rename(c) => answer_is_expected(c, context, xid, answer),
        NfsState::Link(c) => answer_is_expected(c, context, xid, answer),
        NfsState::Readdir(c) => answer_is_expected(c, context, xid, answer),
        NfsState::Readdirplus(c) => plus_answer_is_expected(c, context, xid, answer),
        NfsState::Fsstat(c) => answer_is_expected(c, context, xid, answer),
        NfsState::Fsinfo(c) => answer_is_expected(c, context, xid, answer),
        NfsState::Pathconf(c) => answer_is_expected(c, context, xid, answer),
        NfsState::Commit(c) => answer_is_expected(c, context, xid, answer),
    }
}

/// `a` is nearer to its reply than `b`: its rank comes before the other, by the
/// first number and then by the second.
#[verifier::opaque]
pub open spec fn nearer(a: NfsState, b: NfsState) -> bool {
    a.rank().0 < b.rank().0 || (a.rank().0 == b.rank().0 && a.rank().1 < b.rank().1)
}

proof fn answer_brings_reply_nearer<P: Procedure>(p: P, xid: u32, answer: FsAnswer)
    ensures
        next_of(p, xid, answer) matches Outcome::Ask(q) ==> nearer(q, p.as_call()@),
{
    reveal(next_of);
    p.answer_brings_reply_nearer(xid, answer);
}

proof fn plus_answer_brings_reply_nearer(p: ReaddirplusView, xid: u32, answer: FsAnswer)
    ensures
        next_of_plus(p, xid, answer) matches Outcome::Ask(q) ==> nearer(
            q,
            NfsState::Readdirplus(p),
        ),
{
    reveal(next_of_plus);
    reveal(nearer);
}

/// No call asks for ever: each answer brings its reply nearer.
pub proof fn lemma_answer_brings_reply_nearer(state: NfsState, xid: u32, answer: FsAnswer)
    ensures
        state.next(xid, answer) matches Outcome::Ask(more) ==> nearer(more, state),
{
    match state {
        NfsState::Getattr(c) => answer_brings_reply_nearer(c, xid, answer),
        NfsState::Setattr(c) => answer_brings_reply_nearer(c, xid, answer),
        NfsState::Lookup(c) => answer_brings_reply_nearer(c, xid, answer),
        NfsState::Access(c) => answer_brings_reply_nearer(c, xid, answer),
        NfsState::Readlink(c) => answer_brings_reply_nearer(c, xid, answer),
        NfsState::Read(c) => answer_brings_reply_nearer(c, xid, answer),
        NfsState::Write(c) => answer_brings_reply_nearer(c, xid, answer),
        NfsState::Create(c) => answer_brings_reply_nearer(c, xid, answer),
        NfsState::Mkdir(c) => answer_brings_reply_nearer(c, xid, answer),
        NfsState::Symlink(c) => answer_brings_reply_nearer(c, xid, answer),
        NfsState::Mknod(c) => answer_brings_reply_nearer(c, xid, answer),
        NfsState::Remove(c) => answer_brings_reply_nearer(c, xid, answer),
        NfsState::Rename(c) => answer_brings_reply_nearer(c, xid, answer),
        NfsState::Link(c) => answer_brings_reply_nearer(c, xid, answer),
        NfsState::Readdir(c) => answer_brings_reply_nearer(c, xid, answer),
        NfsState::Readdirplus(c) => plus_answer_brings_reply_nearer(c, xid, answer),
        NfsState::Fsstat(c) => answer_brings_reply_nearer(c, xid, answer),
        NfsState::Fsinfo(c) => answer_brings_reply_nearer(c, xid, answer),
        NfsState::Pathconf(c) => answer_brings_reply_nearer(c, xid, answer),
        NfsState::Commit(c) => answer_brings_reply_nearer(c, xid, answer),
    }
}

/// The call changes nothing any more.
#[verifier::opaque]
pub open spec fn is_settled(state: NfsState) -> bool {
    match state {
        NfsState::Getattr(c) => c.settled(),
        NfsState::Setattr(c) => c.settled(),
        NfsState::Lookup(c) => c.settled(),
        NfsState::Access(c) => c.settled(),
        NfsState::Readlink(c) => c.settled(),
        NfsState::Read(c) => c.settled(),
        NfsState::Write(c) => c.settled(),
        NfsState::Create(c) => c.settled(),
        NfsState::Mkdir(c) => c.settled(),
        NfsState::Symlink(c) => c.settled(),
        NfsState::Mknod(c) => c.settled(),
        NfsState::Remove(c) => c.settled(),
        NfsState::Rename(c) => c.settled(),
        NfsState::Link(c) => c.settled(),
        NfsState::Readdir(c) => c.settled(),
        NfsState::Readdirplus(_) => true,
        NfsState::Fsstat(c) => c.settled(),
        NfsState::Fsinfo(c) => c.settled(),
        NfsState::Pathconf(c) => c.settled(),
        NfsState::Commit(c) => c.settled(),
    }
}

proof fn changes_at_most_once<P: Procedure>(p: P, context: CallContext, xid: u32, answer: FsAnswer)
    ensures
        is_settled(p.as_call()@) ==> !p.asks(&context).mutates(),
        is_settled(p.as_call()@) || p.asks(&context).mutates() ==> (next_of(p, xid, answer) matches
            Outcome::Ask(q) ==> is_settled(q)),
{
    reveal(next_of);
    p.changes_at_most_once(context, xid, answer);
}

proof fn plus_changes_nothing(p: ReaddirplusView, context: CallContext, xid: u32, answer: FsAnswer)
    ensures
        is_settled(NfsState::Readdirplus(p)),
        !p.asks(&context).mutates(),
        next_of_plus(p, xid, answer) matches Outcome::Ask(q) ==> is_settled(q),
{
    reveal(next_of_plus);
    reveal(is_settled);
}

/// No call changes the file system twice: once it has asked for a change, it
/// asks for none any more, whatever the answers.
pub proof fn lemma_call_changes_at_most_once(
    state: NfsState,
    context: CallContext,
    xid: u32,
    answer: FsAnswer,
)
    ensures
        is_settled(state) ==> !state.asks(&context).mutates(),
        is_settled(state) || state.asks(&context).mutates() ==> (state.next(xid, answer) matches
            Outcome::Ask(more) ==> is_settled(more)),
{
    match state {
        NfsState::Getattr(c) => changes_at_most_once(c, context, xid, answer),
        NfsState::Setattr(c) => changes_at_most_once(c, context, xid, answer),
        NfsState::Lookup(c) => changes_at_most_once(c, context, xid, answer),
        NfsState::Access(c) => changes_at_most_once(c, context, xid, answer),
        NfsState::Readlink(c) => changes_at_most_once(c, context, xid, answer),
        NfsState::Read(c) => changes_at_most_once(c, context, xid, answer),
        NfsState::Write(c) => changes_at_most_once(c, context, xid, answer),
        NfsState::Create(c) => changes_at_most_once(c, context, xid, answer),
        NfsState::Mkdir(c) => changes_at_most_once(c, context, xid, answer),
        NfsState::Symlink(c) => changes_at_most_once(c, context, xid, answer),
        NfsState::Mknod(c) => changes_at_most_once(c, context, xid, answer),
        NfsState::Remove(c) => changes_at_most_once(c, context, xid, answer),
        NfsState::Rename(c) => changes_at_most_once(c, context, xid, answer),
        NfsState::Link(c) => changes_at_most_once(c, context, xid, answer),
        NfsState::Readdir(c) => changes_at_most_once(c, context, xid, answer),
        NfsState::Readdirplus(c) => plus_changes_nothing(c, context, xid, answer),
        NfsState::Fsstat(c) => changes_at_most_once(c, context, xid, answer),
        NfsState::Fsinfo(c) => changes_at_most_once(c, context, xid, answer),
        NfsState::Pathconf(c) => changes_at_most_once(c, context, xid, answer),
        NfsState::Commit(c) => changes_at_most_once(c, context, xid, answer),
    }
}

/// The call only looks at the file system.
pub open spec fn only_looks(state: NfsState) -> bool {
    match state {
        NfsState::Getattr(_) => true,
        NfsState::Lookup(_) => true,
        NfsState::Access(_) => true,
        NfsState::Readlink(_) => true,
        NfsState::Read(_) => true,
        NfsState::Readdir(_) => true,
        NfsState::Readdirplus(_) => true,
        NfsState::Fsstat(_) => true,
        NfsState::Fsinfo(_) => true,
        NfsState::Pathconf(_) => true,
        _ => false,
    }
}

/// A call that only looks changes nothing from the start.
pub proof fn lemma_looking_changes_nothing(state: NfsState)
    requires
        only_looks(state),
    ensures
        is_settled(state),
{
    reveal(is_settled);
}

/// Whatever a call asks of the file system, it asks for its caller.
pub proof fn lemma_calls_ask_for_the_caller(state: NfsState, context: CallContext)
    ensures
        state.asks(&context).caller() is None || state.asks(&context).caller() == Some(
            context.auth,
        ),
{
    match state {
        NfsState::Getattr(c) => c.asks_for_the_caller(context),
        NfsState::Setattr(c) => c.asks_for_the_caller(context),
        NfsState::Lookup(c) => c.asks_for_the_caller(context),
        NfsState::Access(c) => c.asks_for_the_caller(context),
        NfsState::Readlink(c) => c.asks_for_the_caller(context),
        NfsState::Read(c) => c.asks_for_the_caller(context),
        NfsState::Write(c) => c.asks_for_the_caller(context),
        NfsState::Create(c) => c.asks_for_the_caller(context),
        NfsState::Mkdir(c) => c.asks_for_the_caller(context),
        NfsState::Symlink(c) => c.asks_for_the_caller(context),
        NfsState::Mknod(c) => c.asks_for_the_caller(context),
        NfsState::Remove(c) => c.asks_for_the_caller(context),
        NfsState::Rename(c) => c.asks_for_the_caller(context),
        NfsState::Link(c) => c.asks_for_the_caller(context),
        NfsState::Readdir(c) => c.asks_for_the_caller(context),
        NfsState::Readdirplus(_) => {},
        NfsState::Fsstat(c) => c.asks_for_the_caller(context),
        NfsState::Fsinfo(c) => c.asks_for_the_caller(context),
        NfsState::Pathconf(c) => c.asks_for_the_caller(context),
        NfsState::Commit(c) => c.asks_for_the_caller(context),
    }
}

/// The call asks first whether the file system can be written.
pub open spec fn asks_leave(state: NfsState) -> bool {
    match state {
        NfsState::Setattr(c) => c is Caps,
        NfsState::Write(c) => c is Caps,
        NfsState::Create(c) => c is Caps,
        NfsState::Mkdir(c) => c is Caps,
        NfsState::Symlink(c) => c is Caps,
        NfsState::Remove(c) => c is Caps,
        NfsState::Rename(c) => c is Caps,
        NfsState::Commit(c) => c is Caps,
        _ => false,
    }
}

/// What a call is answered that a file system which cannot be written refuses:
/// nothing is known of the object, or of either directory of a RENAME.
pub open spec fn refusal(state: NfsState, xid: u32) -> Seq<u8> {
    if state is Rename {
        rename_lost(xid, nfsstat3::NFS3ERR_ROFS)
    } else {
        lost_reply(xid, nfsstat3::NFS3ERR_ROFS)
    }
}

proof fn refused<P: Procedure>(p: P, xid: u32, reply: Seq<u8>)
    requires
        p.next(xid, FsAnswer::Capabilities(VFSCapabilities::ReadOnly)) == Outcome::<P>::Reply(
            reply,
        ),
    ensures
        next_of(p, xid, FsAnswer::Capabilities(VFSCapabilities::ReadOnly)) == Outcome::<
            NfsState,
        >::Reply(reply),
{
    reveal(next_of);
}

/// A call that asks for leave first leaves a file system alone that cannot be
/// written: all that it asks is what the file system can do, and then it is
/// refused. MKNOD and LINK ask for no leave.
pub proof fn lemma_read_only_is_refused(state: NfsState, context: CallContext, xid: u32)
    requires
        asks_leave(state),
    ensures
        state.asks(&context) == FsRequest::Capabilities,
        state.next(xid, FsAnswer::Capabilities(VFSCapabilities::ReadOnly)) == Outcome::<
            NfsState,
        >::Reply(refusal(state, xid)),
{
    match state {
        NfsState::Setattr(c) => refused(c, xid, refusal(state, xid)),
        NfsState::Write(c) => refused(c, xid, refusal(state, xid)),
        NfsState::Create(c) => refused(c, xid, refusal(state, xid)),
        NfsState::Mkdir(c) => refused(c, xid, refusal(state, xid)),
        NfsState::Symlink(c) => refused(c, xid, refusal(state, xid)),
        NfsState::Remove(c) => refused(c, xid, refusal(state, xid)),
        NfsState::Rename(c) => refused(c, xid, refusal(state, xid)),
        NfsState::Commit(c) => refused(c, xid, refusal(state, xid)),
        _ => {},
    }
}

/// What a procedure does next, as what a call does next.
pub open spec fn as_a_call<P>(
    next: Outcome<P>,
    state: spec_fn(P) -> NfsState,
) -> Outcome<NfsState> {
    match next {
        Outcome::Reply(reply) => Outcome::Reply(reply),
        Outcome::Ask(q) => Outcome::Ask(state(q)),
        Outcome::Fail(e) => Outcome::Fail(e),
        Outcome::Unexpected => Outcome::Unexpected,
    }
}

/// A call asks what its procedure asks, and does with an answer what its procedure
/// does with it.
pub proof fn lemma_calls_are_their_procedures(
    state: NfsState,
    context: CallContext,
    xid: u32,
    answer: FsAnswer,
)
    ensures
        match state {
            NfsState::Getattr(p) => state.asks(&context) == p.asks(&context) && state.next(xid, answer)
                == as_a_call(p.next(xid, answer), |q: GetattrCall| NfsState::Getattr(q)),
            NfsState::Setattr(p) => state.asks(&context) == p.asks(&context) && state.next(xid, answer)
                == as_a_call(p.next(xid, answer), |q: SetattrCall| NfsState::Setattr(q)),
            NfsState::Lookup(p) => state.asks(&context) == p.asks(&context) && state.next(xid, answer)
                == as_a_call(p.next(xid, answer), |q: LookupCall| NfsState::Lookup(q)),
            NfsState::Access(p) => state.asks(&context) == p.asks(&context) && state.next(xid, answer)
                == as_a_call(p.next(xid, answer), |q: AccessCall| NfsState::Access(q)),
            NfsState::Readlink(p) => state.asks(&context) == p.asks(&context) && state.next(xid, answer)
                == as_a_call(p.next(xid, answer), |q: ReadlinkCall| NfsState::Readlink(q)),
            NfsState::Read(p) => state.asks(&context) == p.asks(&context) && state.next(xid, answer)
                == as_a_call(p.next(xid, answer), |q: ReadCall| NfsState::Read(q)),
            NfsState::Write(p) => state.asks(&context) == p.asks(&context) && state.next(xid, answer)
                == as_a_call(p.next(xid, answer), |q: WriteCall| NfsState::Write(q)),
            NfsState::Create(p) => state.asks(&context) == p.asks(&context) && state.next(xid, answer)
                == as_a_call(p.next(xid, answer), |q: CreateCall| NfsState::Create(q)),
            NfsState::Mkdir(p) => state.asks(&context) == p.asks(&context) && state.next(xid, answer)
                == as_a_call(p.next(xid, answer), |q: MkdirCall| NfsState::Mkdir(q)),
            NfsState::Symlink(p) => state.asks(&context) == p.asks(&context) && state.next(xid, answer)
                == as_a_call(p.next(xid, answer), |q: SymlinkCall| NfsState::Symlink(q)),
            NfsState::Mknod(p) => state.asks(&context) == p.asks(&context) && state.next(xid, answer)
                == as_a_call(p.next(xid, answer), |q: MknodCall| NfsState::Mknod(q)),
            NfsState::Remove(p) => state.asks(&context) == p.asks(&context) && state.next(xid, answer)
                == as_a_call(p.next(xid, answer), |q: RemoveCall| NfsState::Remove(q)),
            NfsState::Rename(p) => state.asks(&context) == p.asks(&context) && state.next(xid, answer)
                == as_a_call(p.next(xid, answer), |q: RenameCall| NfsState::Rename(q)),
            NfsState::Link(p) => state.asks(&context) == p.asks(&context) && state.next(xid, answer)
                == as_a_call(p.next(xid, answer), |q: LinkCall| NfsState::Link(q)),
            NfsState::Readdir(p) => state.asks(&context) == p.asks(&context) && state.next(xid, answer)
                == as_a_call(p.next(xid, answer), |q: ReaddirCall| NfsState::Readdir(q)),
            NfsState::Fsstat(p) => state.asks(&context) == p.asks(&context) && state.next(xid, answer)
                == as_a_call(p.next(xid, answer), |q: FsstatCall| NfsState::Fsstat(q)),
            NfsState::Fsinfo(p) => state.asks(&context) == p.asks(&context) && state.next(xid, answer)
                == as_a_call(p.next(xid, answer), |q: FsinfoCall| NfsState::Fsinfo(q)),
            NfsState::Pathconf(p) => state.asks(&context) == p.asks(&context) && state.next(xid, answer)
                == as_a_call(p.next(xid, answer), |q: PathconfCall| NfsState::Pathconf(q)),
            NfsState::Commit(p) => state.asks(&context) == p.asks(&context) && state.next(xid, answer)
                == as_a_call(p.next(xid, answer), |q: CommitCall| NfsState::Commit(q)),
            NfsState::Readdirplus(p) => state.asks(&context) == p.asks(&context) && state.next(
                xid,
                answer,
            ) == as_a_call(p.next(xid, answer), |q: ReaddirplusView| NfsState::Readdirplus(q)),
        },
{
    reveal(next_of);
    reveal(next_of_plus);
}

/// A procedure has started a call: the call is that of the procedure, in the state
/// in which the procedure starts.
pub open spec fn starts_call<P: Procedure>(
    xid: u32,
    s: Seq<u8>,
    r: Step<NfsCall>,
    state: spec_fn(P) -> NfsState,
) -> bool {
    exists|start: Step<P>| #[trigger] P::starts(xid, s, start) && match start {
        Step::Reply(bytes) => r == Step::<NfsCall>::Reply(bytes),
        Step::Ask(p) => r matches Step::Ask(call) && call@ == state(p),
        Step::Fail(e) => r == Step::<NfsCall>::Fail(e),
        Step::Unexpected => r == Step::<NfsCall>::Unexpected,
    }
}

proof fn begun_starts_call<P: Procedure>(
    xid: u32,
    s: Seq<u8>,
    r: Step<NfsCall>,
    state: spec_fn(P) -> NfsState,
)
    requires
        begun::<P>(xid, s, r),
        forall|p: P| (#[trigger] p.as_call())@ == state(p),
    ensures
        starts_call(xid, s, r, state),
{
    reveal(begun);
    let start = choose|start: Step<P>| #[trigger]
        P::starts(xid, s, start) && match start {
            Step::Reply(bytes) => r == Step::<NfsCall>::Reply(bytes),
            Step::Ask(p) => r == Step::Ask(p.as_call()),
            Step::Fail(e) => r == Step::<NfsCall>::Fail(e),
            Step::Unexpected => r == Step::<NfsCall>::Unexpected,
        };
    assert(P::starts(xid, s, start));
}

/// Each procedure is called by its number. Number zero is answered with a bare
/// success, and a number that names no procedure with that there is none.
pub proof fn lemma_procedures_have_numbers(xid: u32, proc: u32, s: Seq<u8>, r: Step<NfsCall>)
    requires
        call_starts(xid, proc, s, r),
    ensures
        proc == 0 ==> (nfs_step(r) matches Outcome::Reply(reply) && tells_refusal(reply, xid, 0)),
        proc == 1 ==> starts_call(xid, s, r, |p: GetattrCall| NfsState::Getattr(p)),
        proc == 2 ==> starts_call(xid, s, r, |p: SetattrCall| NfsState::Setattr(p)),
        proc == 3 ==> starts_call(xid, s, r, |p: LookupCall| NfsState::Lookup(p)),
        proc == 4 ==> starts_call(xid, s, r, |p: AccessCall| NfsState::Access(p)),
        proc == 5 ==> starts_call(xid, s, r, |p: ReadlinkCall| NfsState::Readlink(p)),
        proc == 6 ==> starts_call(xid, s, r, |p: ReadCall| NfsState::Read(p)),
        proc == 7 ==> starts_call(xid, s, r, |p: WriteCall| NfsState::Write(p)),
        proc == 8 ==> starts_call(xid, s, r, |p: CreateCall| NfsState::Create(p)),
        proc == 9 ==> starts_call(xid, s, r, |p: MkdirCall| NfsState::Mkdir(p)),
        proc == 10 ==> starts_call(xid, s, r, |p: SymlinkCall| NfsState::Symlink(p)),
        proc == 11 ==> starts_call(xid, s, r, |p: MknodCall| NfsState::Mknod(p)),
        proc == 12 ==> starts_call(xid, s, r, |p: RemoveCall| NfsState::Remove(p)),
        proc == 13 ==> starts_call(xid, s, r, |p: RemoveCall| NfsState::Remove(p)),
        proc == 14 ==> starts_call(xid, s, r, |p: RenameCall| NfsState::Rename(p)),
        proc == 15 ==> starts_call(xid, s, r, |p: LinkCall| NfsState::Link(p)),
        proc == 16 ==> starts_call(xid, s, r, |p: ReaddirCall| NfsState::Readdir(p)),
        proc == 18 ==> starts_call(xid, s, r, |p: FsstatCall| NfsState::Fsstat(p)),
        proc == 19 ==> starts_call(xid, s, r, |p: FsinfoCall| NfsState::Fsinfo(p)),
        proc == 20 ==> starts_call(xid, s, r, |p: PathconfCall| NfsState::Pathconf(p)),
        proc == 21 ==> starts_call(xid, s, r, |p: CommitCall| NfsState::Commit(p)),
        proc == 17 ==> exists|start: Step<ReaddirplusCall>| #[trigger]
            readdirplus_starts(s, start) && match start {
                Step::Reply(bytes) => r == Step::<NfsCall>::Reply(bytes),
                Step::Ask(p) => r matches Step::Ask(call) && call@ == NfsState::Readdirplus(p@),
                Step::Fail(e) => r == Step::<NfsCall>::Fail(e),
                Step::Unexpected => r == Step::<NfsCall>::Unexpected,
            },
        proc > 21 ==> (nfs_step(r) matches Outcome::Reply(reply) && tells_refusal(reply, xid, 3)),
{
    lemma_refusals_are_told(xid);
    lemma_bare_success_is_told(xid);
    if proc == 1 {
        begun_starts_call(xid, s, r, |p: GetattrCall| NfsState::Getattr(p));
    }
    if proc == 2 {
        begun_starts_call(xid, s, r, |p: SetattrCall| NfsState::Setattr(p));
    }
    if proc == 3 {
        begun_starts_call(xid, s, r, |p: LookupCall| NfsState::Lookup(p));
    }
    if proc == 4 {
        begun_starts_call(xid, s, r, |p: AccessCall| NfsState::Access(p));
    }
    if proc == 5 {
        begun_starts_call(xid, s, r, |p: ReadlinkCall| NfsState::Readlink(p));
    }
    if proc == 6 {
        begun_starts_call(xid, s, r, |p: ReadCall| NfsState::Read(p));
    }
    if proc == 7 {
        begun_starts_call(xid, s, r, |p: WriteCall| NfsState::Write(p));
    }
    if proc == 8 {
        begun_starts_call(xid, s, r, |p: CreateCall| NfsState::Create(p));
    }
    if proc == 9 {
        begun_starts_call(xid, s, r, |p: MkdirCall| NfsState::Mkdir(p));
    }
    if proc == 10 {
        begun_starts_call(xid, s, r, |p: SymlinkCall| NfsState::Symlink(p));
    }
    if proc == 11 {
        begun_starts_call(xid, s, r, |p: MknodCall| NfsState::Mknod(p));
    }
    if proc == 12 {
        begun_starts_call(xid, s, r, |p: RemoveCall| NfsState::Remove(p));
    }
    if proc == 13 {
        begun_starts_call(xid, s, r, |p: RemoveCall| NfsState::Remove(p));
    }
    if proc == 14 {
        begun_starts_call(xid, s, r, |p: RenameCall| NfsState::Rename(p));
    }
    if proc == 15 {
        begun_starts_call(xid, s, r, |p: LinkCall| NfsState::Link(p));
    }
    if proc == 16 {
        begun_starts_call(xid, s, r, |p: ReaddirCall| NfsState::Readdir(p));
    }
    if proc == 18 {
        begun_starts_call(xid, s, r, |p: FsstatCall| NfsState::Fsstat(p));
    }
    if proc == 19 {
        begun_starts_call(xid, s, r, |p: FsinfoCall| NfsState::Fsinfo(p));
    }
    if proc == 20 {
        begun_starts_call(xid, s, r, |p: PathconfCall| NfsState::Pathconf(p));
    }
    if proc == 21 {
        begun_starts_call(xid, s, r, |p: CommitCall| NfsState::Commit(p));
    }
    reveal(begun_plus);
}

} // verus!
