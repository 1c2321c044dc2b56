//! Procedures that ask about a file system: FSINFO, FSSTAT, PATHCONF.
use super::dispatch::{is_settled, nearer, NfsCall, Procedure};
use super::{attr_reply, reply_attr, reply_stat, stat_reply, Outcome, Step};
use crate::nfs::{fileid3, nfs_fh3, nfsstat3, post_op_attr};
use crate::vfs::{CallContext, FsAnswer, FsRequest};
use crate::xdr::{parse_opaque, write_bool, write_u32, xdr_bool, xdr_u32, Input};
use vstd::prelude::*;

verus! {

// ---------------------------------------------------------------------- FSINFO

/// An FSINFO call that is being served.
pub enum FsinfoCall {
    Handle { handle: nfs_fh3 },
    Info { id: fileid3 },
}

/// How FSINFO starts on its encoded arguments.
pub open spec fn fsinfo_starts(s: Seq<u8>, r: Step<FsinfoCall>) -> bool {
    match parse_opaque(s) {
        Ok((v, _)) => r matches Step::Ask(FsinfoCall::Handle { handle }) && handle@ == v,
        Err(e) => r == Step::<FsinfoCall>::Fail(e),
    }
}

/// Starts FSINFO.
pub fn nfsproc3_fsinfo(input: Input) -> (r: Step<FsinfoCall>)
    ensures
        fsinfo_starts(input@, r),
{
    let mut input = input;
    match nfs_fh3::deserialize(&mut input) {
        Ok(handle) => Step::Ask(FsinfoCall::Handle { handle }),
        Err(e) => Step::Fail(e),
    }
}

impl FsinfoCall {
    /// How many answers at most it takes after the next one.
    pub open spec fn remaining(self) -> nat {
        match self {
            FsinfoCall::Handle { .. } => 1,
            FsinfoCall::Info { .. } => 0,
        }
    }

    /// It changes nothing any more.
    pub open spec fn settled(self) -> bool {
        true
    }
}

impl Procedure for FsinfoCall {
    open spec fn starts(xid: u32, s: Seq<u8>, r: Step<FsinfoCall>) -> bool {
        fsinfo_starts(s, r)
    }

    open spec fn asks<'a>(&'a self, context: &'a CallContext) -> FsRequest<'a> {
        match self {
            FsinfoCall::Handle { handle } => FsRequest::FhToId { handle: handle },
            FsinfoCall::Info { id } => FsRequest::Fsinfo { auth: &context.auth, id: *id },
        }
    }

    open spec fn next(self, xid: u32, answer: FsAnswer) -> Outcome<FsinfoCall> {
        match (self, answer) {
            (FsinfoCall::Handle { .. }, FsAnswer::Id(Ok(id))) => Outcome::Ask(
                FsinfoCall::Info { id },
            ),
            (FsinfoCall::Handle { .. }, FsAnswer::Id(Err(stat))) => Outcome::Reply(
                attr_reply(xid, stat, post_op_attr::Void),
            ),
            (FsinfoCall::Info { .. }, FsAnswer::Fsinfo(Ok(info))) => Outcome::Reply(
                stat_reply(xid, nfsstat3::NFS3_OK) + info.encoding(),
            ),
            (FsinfoCall::Info { .. }, FsAnswer::Fsinfo(Err(stat))) => Outcome::Reply(
                attr_reply(xid, stat, post_op_attr::Void),
            ),
            _ => Outcome::Unexpected,
        }
    }

    open spec fn encodable(self) -> bool {
        true
    }

    open spec fn as_call(self) -> NfsCall {
        NfsCall::Fsinfo(self)
    }

    fn start(xid: u32, input: Input) -> (r: Step<FsinfoCall>) {
        nfsproc3_fsinfo(input)
    }

    fn request<'a>(&'a self, context: &'a CallContext) -> (r: FsRequest<'a>) {
        match self {
            FsinfoCall::Handle { handle } => FsRequest::FhToId { handle: handle },
            FsinfoCall::Info { id } => FsRequest::Fsinfo { auth: &context.auth, id: *id },
        }
    }

    fn resume(self, xid: u32, answer: FsAnswer) -> (r: Step<FsinfoCall>) {
        match (self, answer) {
            (FsinfoCall::Handle { .. }, FsAnswer::Id(Ok(id))) => Step::Ask(FsinfoCall::Info { id }),
            (FsinfoCall::Handle { .. }, FsAnswer::Id(Err(stat))) => Step::Reply(
                reply_attr(xid, stat, post_op_attr::Void),
            ),
            (FsinfoCall::Info { .. }, FsAnswer::Fsinfo(Ok(info))) => {
                let mut out = reply_stat(xid, nfsstat3::NFS3_OK);
                info.serialize(&mut out);
                Step::Reply(out)
            },
            (FsinfoCall::Info { .. }, FsAnswer::Fsinfo(Err(stat))) => Step::Reply(
                reply_attr(xid, stat, post_op_attr::Void),
            ),
            _ => Step::Unexpected,
        }
    }

    fn into_call(self) -> (r: NfsCall) {
        NfsCall::Fsinfo(self)
    }

    proof fn fitting_answer_is_expected(self, context: CallContext, xid: u32, answer: FsAnswer) {
    }

    proof fn answer_brings_reply_nearer(self, xid: u32, answer: FsAnswer) {
        reveal(nearer);
    }

    proof fn changes_at_most_once(self, context: CallContext, xid: u32, answer: FsAnswer) {
        reveal(is_settled);
    }

    proof fn asks_for_the_caller(self, context: CallContext) {
    }
}

// ---------------------------------------------------------------------- FSSTAT

/// An FSSTAT call that is being served.
pub enum FsstatCall {
    Handle { handle: nfs_fh3 },
    Stat { id: fileid3 },
    Attr { id: fileid3, stat: nfsstat3 },
}

/// How FSSTAT starts on its encoded arguments.
pub open spec fn fsstat_starts(s: Seq<u8>, r: Step<FsstatCall>) -> bool {
    match parse_opaque(s) {
        Ok((v, _)) => r matches Step::Ask(FsstatCall::Handle { handle }) && handle@ == v,
        Err(e) => r == Step::<FsstatCall>::Fail(e),
    }
}

/// Starts FSSTAT.
pub fn nfsproc3_fsstat(input: Input) -> (r: Step<FsstatCall>)
    ensures
        fsstat_starts(input@, r),
{
    let mut input = input;
    match nfs_fh3::deserialize(&mut input) {
        Ok(handle) => Step::Ask(FsstatCall::Handle { handle }),
        Err(e) => Step::Fail(e),
    }
}

impl FsstatCall {
    /// How many answers at most it takes after the next one.
    pub open spec fn remaining(self) -> nat {
        match self {
            FsstatCall::Handle { .. } => 2,
            FsstatCall::Stat { .. } => 1,
            FsstatCall::Attr { .. } => 0,
        }
    }

    /// It changes nothing any more.
    pub open spec fn settled(self) -> bool {
        true
    }
}

impl Procedure for FsstatCall {
    open spec fn starts(xid: u32, s: Seq<u8>, r: Step<FsstatCall>) -> bool {
        fsstat_starts(s, r)
    }

    open spec fn asks<'a>(&'a self, context: &'a CallContext) -> FsRequest<'a> {
        match self {
            FsstatCall::Handle { handle } => FsRequest::FhToId { handle: handle },
            FsstatCall::Stat { id } => FsRequest::Fsstat { auth: &context.auth, id: *id },
            FsstatCall::Attr { id, .. } => FsRequest::Getattr { auth: &context.auth, id: *id },
        }
    }

    open spec fn next(self, xid: u32, answer: FsAnswer) -> Outcome<FsstatCall> {
        match (self, answer) {
            (FsstatCall::Handle { .. }, FsAnswer::Id(Ok(id))) => Outcome::Ask(
                FsstatCall::Stat { id },
            ),
            (FsstatCall::Handle { .. }, FsAnswer::Id(Err(stat))) => Outcome::Reply(
                attr_reply(xid, stat, post_op_attr::Void),
            ),
            (FsstatCall::Stat { .. }, FsAnswer::Fsstat(Ok(res))) => Outcome::Reply(
                stat_reply(xid, nfsstat3::NFS3_OK) + res.encoding(),
            ),
            (FsstatCall::Stat { id }, FsAnswer::Fsstat(Err(stat))) => Outcome::Ask(
                FsstatCall::Attr { id, stat },
            ),
            (FsstatCall::Attr { stat, .. }, FsAnswer::Attr(attr)) => Outcome::Reply(
                attr_reply(xid, stat, post_op_attr::of_getattr(attr)),
            ),
            _ => Outcome::Unexpected,
        }
    }

    open spec fn encodable(self) -> bool {
        true
    }

    open spec fn as_call(self) -> NfsCall {
        NfsCall::Fsstat(self)
    }

    fn start(xid: u32, input: Input) -> (r: Step<FsstatCall>) {
        nfsproc3_fsstat(input)
    }

    fn request<'a>(&'a self, context: &'a CallContext) -> (r: FsRequest<'a>) {
        match self {
            FsstatCall::Handle { handle } => FsRequest::FhToId { handle: handle },
            FsstatCall::Stat { id } => FsRequest::Fsstat { auth: &context.auth, id: *id },
            FsstatCall::Attr { id, .. } => FsRequest::Getattr { auth: &context.auth, id: *id },
        }
    }

    fn resume(self, xid: u32, answer: FsAnswer) -> (r: Step<FsstatCall>) {
        match (self, answer) {
            (FsstatCall::Handle { .. }, FsAnswer::Id(Ok(id))) => Step::Ask(FsstatCall::Stat { id }),
            (FsstatCall::Handle { .. }, FsAnswer::Id(Err(stat))) => Step::Reply(
                reply_attr(xid, stat, post_op_attr::Void),
            ),
            (FsstatCall::Stat { .. }, FsAnswer::Fsstat(Ok(res))) => {
                let mut out = reply_stat(xid, nfsstat3::NFS3_OK);
                res.serialize(&mut out);
                Step::Reply(out)
            },
            (FsstatCall::Stat { id }, FsAnswer::Fsstat(Err(stat))) => Step::Ask(
                FsstatCall::Attr { id, stat },
            ),
            (FsstatCall::Attr { stat, .. }, FsAnswer::Attr(attr)) => Step::Reply(
                reply_attr(xid, stat, post_op_attr::from_getattr(&attr)),
            ),
            _ => Step::Unexpected,
        }
    }

    fn into_call(self) -> (r: NfsCall) {
        NfsCall::Fsstat(self)
    }

    proof fn fitting_answer_is_expected(self, context: CallContext, xid: u32, answer: FsAnswer) {
    }

    proof fn answer_brings_reply_nearer(self, xid: u32, answer: FsAnswer) {
        reveal(nearer);
    }

    proof fn changes_at_most_once(self, context: CallContext, xid: u32, answer: FsAnswer) {
        reveal(is_settled);
    }

    proof fn asks_for_the_caller(self, context: CallContext) {
    }
}

// -------------------------------------------------------------------- PATHCONF

/// A PATHCONF call that is being served.
pub enum PathconfCall {
    Handle { handle: nfs_fh3 },
    Attr { id: fileid3 },
}

/// How PATHCONF starts on its encoded arguments.
pub open spec fn pathconf_starts(s: Seq<u8>, r: Step<PathconfCall>) -> bool {
    match parse_opaque(s) {
        Ok((v, _)) => r matches Step::Ask(PathconfCall::Handle { handle }) && handle@ == v,
        Err(e) => r == Step::<PathconfCall>::Fail(e),
    }
}

/// Starts PATHCONF.
pub fn nfsproc3_pathconf(input: Input) -> (r: Step<PathconfCall>)
    ensures
        pathconf_starts(input@, r),
{
    let mut input = input;
    match nfs_fh3::deserialize(&mut input) {
        Ok(handle) => Step::Ask(PathconfCall::Handle { handle }),
        Err(e) => Step::Fail(e),
    }
}

/// The most links to one object that are stated.
pub const PATHCONF_LINKMAX: u32 = 0;

/// The longest name that is stated.
pub const PATHCONF_NAME_MAX: u32 = 32768;

/// The reply of PATHCONF: names that are too long are refused, owners cannot be
/// given away, and names are compared and kept with their case.
pub open spec fn pathconf_reply(xid: u32, attr: post_op_attr) -> Seq<u8> {
    attr_reply(xid, nfsstat3::NFS3_OK, attr) + xdr_u32(PATHCONF_LINKMAX) + xdr_u32(
        PATHCONF_NAME_MAX,
    )
        + xdr_bool(true) + xdr_bool(true) + xdr_bool(false) + xdr_bool(true)
}

impl PathconfCall {
    /// How many answers at most it takes after the next one.
    pub open spec fn remaining(self) -> nat {
        match self {
            PathconfCall::Handle { .. } => 1,
            PathconfCall::Attr { .. } => 0,
        }
    }

    /// It changes nothing any more.
    pub open spec fn settled(self) -> bool {
        true
    }
}

impl Procedure for PathconfCall {
    open spec fn starts(xid: u32, s: Seq<u8>, r: Step<PathconfCall>) -> bool {
        pathconf_starts(s, r)
    }

    open spec fn asks<'a>(&'a self, context: &'a CallContext) -> FsRequest<'a> {
        match self {
            PathconfCall::Handle { handle } => FsRequest::FhToId { handle: handle },
            PathconfCall::Attr { id } => FsRequest::Getattr { auth: &context.auth, id: *id },
        }
    }

    open spec fn next(self, xid: u32, answer: FsAnswer) -> Outcome<PathconfCall> {
        match (self, answer) {
            (PathconfCall::Handle { .. }, FsAnswer::Id(Ok(id))) => Outcome::Ask(
                PathconfCall::Attr { id },
            ),
            (PathconfCall::Handle { .. }, FsAnswer::Id(Err(stat))) => Outcome::Reply(
                attr_reply(xid, stat, post_op_attr::Void),
            ),
            (PathconfCall::Attr { .. }, FsAnswer::Attr(attr)) => Outcome::Reply(
                pathconf_reply(xid, post_op_attr::of_getattr(attr)),
            ),
            _ => Outcome::Unexpected,
        }
    }

    open spec fn encodable(self) -> bool {
        true
    }

    open spec fn as_call(self) -> NfsCall {
        NfsCall::Pathconf(self)
    }

    fn start(xid: u32, input: Input) -> (r: Step<PathconfCall>) {
        nfsproc3_pathconf(input)
    }

    fn request<'a>(&'a self, context: &'a CallContext) -> (r: FsRequest<'a>) {
        match self {
            PathconfCall::Handle { handle } => FsRequest::FhToId { handle: handle },
            PathconfCall::Attr { id } => FsRequest::Getattr { auth: &context.auth, id: *id },
        }
    }

    fn resume(self, xid: u32, answer: FsAnswer) -> (r: Step<PathconfCall>) {
        match (self, answer) {
            (PathconfCall::Handle { .. }, FsAnswer::Id(Ok(id))) => Step::Ask(
                PathconfCall::Attr { id },
            ),
            (PathconfCall::Handle { .. }, FsAnswer::Id(Err(stat))) => Step::Reply(
                reply_attr(xid, stat, post_op_attr::Void),
            ),
            (PathconfCall::Attr { .. }, FsAnswer::Attr(attr)) => {
                let mut out = reply_attr(xid, nfsstat3::NFS3_OK, post_op_attr::from_getattr(&attr));
                write_u32(&mut out, PATHCONF_LINKMAX);
                write_u32(&mut out, PATHCONF_NAME_MAX);
                write_bool(&mut out, true);
                write_bool(&mut out, true);
                write_bool(&mut out, false);
                write_bool(&mut out, true);
                Step::Reply(out)
            },
            _ => Step::Unexpected,
        }
    }

    fn into_call(self) -> (r: NfsCall) {
        NfsCall::Pathconf(self)
    }

    proof fn fitting_answer_is_expected(self, context: CallContext, xid: u32, answer: FsAnswer) {
    }

    proof fn answer_brings_reply_nearer(self, xid: u32, answer: FsAnswer) {
        reveal(nearer);
    }

    proof fn changes_at_most_once(self, context: CallContext, xid: u32, answer: FsAnswer) {
        reveal(is_settled);
    }

    proof fn asks_for_the_caller(self, context: CallContext) {
    }
}

} // verus!
