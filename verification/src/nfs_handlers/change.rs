//! Procedures that change attributes and names: SETATTR, REMOVE, RENAME, LINK.
use super::dispatch::{is_settled, nearer, NfsCall, Procedure};
use super::{
    attr_reply, lost_reply, reply_attr, reply_lost, reply_wcc, wcc_reply, Outcome, Step,
};
use crate::nfs::{
    fileid3, filename3, nfsstat3, nfstime3, post_op_attr, pre_op_attr, wcc_data,
};
use crate::nfs_args::{
    diropargs3, parse_LINK3args, parse_RENAME3args, parse_SETATTR3args, parse_diropargs3, sattr3,
    sattrguard3, LINK3args, RENAME3args, SETATTR3args,
};
use crate::vfs::{CallContext, FsAnswer, FsRequest, VFSCapabilities};
use crate::xdr::{Input, XdrError};
use vstd::prelude::*;

verus! {

// --------------------------------------------------------------------- SETATTR

/// A SETATTR call that is being served.
pub enum SetattrCall {
    Caps { decoded: Result<SETATTR3args, XdrError> },
    Handle { args: SETATTR3args },
    Attr { id: fileid3, attributes: sattr3, guard: sattrguard3 },
    Assign { id: fileid3, attributes: sattr3, before: pre_op_attr },
}

/// How SETATTR starts on its encoded arguments. Whether they could be decoded
/// matters only once the file system has said that it can be written.
pub open spec fn setattr_starts(s: Seq<u8>, r: Step<SetattrCall>) -> bool {
    r matches Step::Ask(SetattrCall::Caps { decoded }) && match parse_SETATTR3args(s) {
        Ok((v, _)) => decoded matches Ok(args) && args@ == v,
        Err(e) => decoded == Err::<SETATTR3args, XdrError>(e),
    }
}

/// Starts SETATTR.
pub fn nfsproc3_setattr(input: Input) -> (r: Step<SetattrCall>)
    ensures
        setattr_starts(input@, r),
{
    let mut input = input;
    Step::Ask(SetattrCall::Caps { decoded: SETATTR3args::deserialize(&mut input) })
}

/// The object still has the change time that the guard names.
pub open spec fn guard_holds(guard: sattrguard3, ctime: nfstime3) -> bool {
    match guard {
        sattrguard3::Void => true,
        sattrguard3::obj_ctime(t) => t == ctime,
    }
}

fn check_guard(guard: sattrguard3, ctime: nfstime3) -> (r: bool)
    ensures
        r == guard_holds(guard, ctime),
{
    match guard {
        sattrguard3::Void => true,
        sattrguard3::obj_ctime(t) => t.seconds == ctime.seconds && t.nseconds == ctime.nseconds,
    }
}

impl SetattrCall {
    /// How many answers at most it takes after the next one.
    pub open spec fn remaining(self) -> nat {
        match self {
            SetattrCall::Caps { .. } => 3,
            SetattrCall::Handle { .. } => 2,
            SetattrCall::Attr { .. } => 1,
            SetattrCall::Assign { .. } => 0,
        }
    }

    /// It changes nothing any more.
    pub open spec fn settled(self) -> bool {
        false
    }
}

impl Procedure for SetattrCall {
    open spec fn starts(xid: u32, s: Seq<u8>, r: Step<SetattrCall>) -> bool {
        setattr_starts(s, r)
    }

    open spec fn asks<'a>(&'a self, context: &'a CallContext) -> FsRequest<'a> {
        match self {
            SetattrCall::Caps { .. } => FsRequest::Capabilities,
            SetattrCall::Handle { args } => FsRequest::FhToId { handle: &args.object },
            SetattrCall::Attr { id, .. } => FsRequest::Getattr { auth: &context.auth, id: *id },
            SetattrCall::Assign { id, attributes, .. } => FsRequest::Setattr {
                auth: &context.auth,
                id: *id,
                attr: *attributes,
            },
        }
    }

    open spec fn next(self, xid: u32, answer: FsAnswer) -> Outcome<SetattrCall> {
        match (self, answer) {
            (SetattrCall::Caps { .. }, FsAnswer::Capabilities(VFSCapabilities::ReadOnly)) =>
                Outcome::Reply(lost_reply(xid, nfsstat3::NFS3ERR_ROFS)),
            (
                SetattrCall::Caps { decoded: Ok(args) },
                FsAnswer::Capabilities(VFSCapabilities::ReadWrite),
            ) => Outcome::Ask(SetattrCall::Handle { args }),
            (
                SetattrCall::Caps { decoded: Err(e) },
                FsAnswer::Capabilities(VFSCapabilities::ReadWrite),
            ) => Outcome::Fail(e),
            (SetattrCall::Handle { args }, FsAnswer::Id(Ok(id))) => Outcome::Ask(
                SetattrCall::Attr { id, attributes: args.new_attribute, guard: args.guard },
            ),
            (SetattrCall::Handle { .. }, FsAnswer::Id(Err(stat))) => Outcome::Reply(
                lost_reply(xid, stat),
            ),
            (SetattrCall::Attr { id, attributes, guard }, FsAnswer::Attr(Ok(attr))) =>
                if guard_holds(guard, attr.ctime) {
                    Outcome::Ask(
                        SetattrCall::Assign {
                            id,
                            attributes,
                            before: pre_op_attr::of_getattr(Ok(attr)),
                        },
                    )
                } else {
                    Outcome::Reply(lost_reply(xid, nfsstat3::NFS3ERR_NOT_SYNC))
                },
            (SetattrCall::Attr { .. }, FsAnswer::Attr(Err(stat))) => Outcome::Reply(
                lost_reply(xid, stat),
            ),
            (SetattrCall::Assign { before, .. }, FsAnswer::Attr(Ok(attr))) => Outcome::Reply(
                wcc_reply(
                    xid,
                    nfsstat3::NFS3_OK,
                    wcc_data { before, after: post_op_attr::attributes(attr) },
                ),
            ),
            (SetattrCall::Assign { .. }, FsAnswer::Attr(Err(stat))) => Outcome::Reply(
                lost_reply(xid, stat),
            ),
            _ => Outcome::Unexpected,
        }
    }

    open spec fn encodable(self) -> bool {
        true
    }

    open spec fn as_call(self) -> NfsCall {
        NfsCall::Setattr(self)
    }

    fn start(xid: u32, input: Input) -> (r: Step<SetattrCall>) {
        nfsproc3_setattr(input)
    }

    fn request<'a>(&'a self, context: &'a CallContext) -> (r: FsRequest<'a>) {
        match self {
            SetattrCall::Caps { .. } => FsRequest::Capabilities,
            SetattrCall::Handle { args } => FsRequest::FhToId { handle: &args.object },
            SetattrCall::Attr { id, .. } => FsRequest::Getattr { auth: &context.auth, id: *id },
            SetattrCall::Assign { id, attributes, .. } => FsRequest::Setattr {
                auth: &context.auth,
                id: *id,
                attr: *attributes,
            },
        }
    }

    fn resume(self, xid: u32, answer: FsAnswer) -> (r: Step<SetattrCall>) {
        match (self, answer) {
            (SetattrCall::Caps { .. }, FsAnswer::Capabilities(VFSCapabilities::ReadOnly)) =>
                Step::Reply(reply_lost(xid, nfsstat3::NFS3ERR_ROFS)),
            (
                SetattrCall::Caps { decoded: Ok(args) },
                FsAnswer::Capabilities(VFSCapabilities::ReadWrite),
            ) => Step::Ask(SetattrCall::Handle { args }),
            (
                SetattrCall::Caps { decoded: Err(e) },
                FsAnswer::Capabilities(VFSCapabilities::ReadWrite),
            ) => Step::Fail(e),
            (SetattrCall::Handle { args }, FsAnswer::Id(Ok(id))) => Step::Ask(
                SetattrCall::Attr { id, attributes: args.new_attribute, guard: args.guard },
            ),
            (SetattrCall::Handle { .. }, FsAnswer::Id(Err(stat))) => Step::Reply(
                reply_lost(xid, stat),
            ),
            (SetattrCall::Attr { id, attributes, guard }, FsAnswer::Attr(Ok(attr))) =>
                if check_guard(guard, attr.ctime) {
                    Step::Ask(
                        SetattrCall::Assign {
                            id,
                            attributes,
                            before: pre_op_attr::from_getattr(&Ok(attr)),
                        },
                    )
                } else {
                    Step::Reply(reply_lost(xid, nfsstat3::NFS3ERR_NOT_SYNC))
                },
            (SetattrCall::Attr { .. }, FsAnswer::Attr(Err(stat))) => Step::Reply(
                reply_lost(xid, stat),
            ),
            (SetattrCall::Assign { before, .. }, FsAnswer::Attr(Ok(attr))) => Step::Reply(
                reply_wcc(
                    xid,
                    nfsstat3::NFS3_OK,
                    wcc_data { before, after: post_op_attr::attributes(attr) },
                ),
            ),
            (SetattrCall::Assign { .. }, FsAnswer::Attr(Err(stat))) => Step::Reply(
                reply_lost(xid, stat),
            ),
            _ => Step::Unexpected,
        }
    }

    fn into_call(self) -> (r: NfsCall) {
        NfsCall::Setattr(self)
    }

    proof fn fitting_answer_is_expected(self, context: CallContext, xid: u32, answer: FsAnswer) {
    }

    proof fn answer_brings_reply_nearer(self, xid: u32, answer: FsAnswer) {
        reveal(nearer);
    }

    proof fn changes_at_most_once(self, context: CallContext, xid: u32, answer: FsAnswer) {
        reveal(is_settled);
    }

    proof fn asks_for_the_caller(self, context: CallContext) {
    }
}

/// The status of a reply: success, or the error that the file system gave.
pub open spec fn status_of(done: Result<(), nfsstat3>) -> nfsstat3 {
    match done {
        Ok(_) => nfsstat3::NFS3_OK,
        Err(stat) => stat,
    }
}

fn to_status(done: Result<(), nfsstat3>) -> (r: nfsstat3)
    ensures
        r == status_of(done),
{
    match done {
        Ok(_) => nfsstat3::NFS3_OK,
        Err(stat) => stat,
    }
}

// ---------------------------------------------------------------------- REMOVE

/// A REMOVE call that is being served.
pub enum RemoveCall {
    Caps { decoded: Result<diropargs3, XdrError> },
    Handle { args: diropargs3 },
    Attr { dirid: fileid3, name: filename3 },
    Remove { dirid: fileid3, name: filename3, before: pre_op_attr },
    After { dirid: fileid3, stat: nfsstat3, before: pre_op_attr },
}

/// How REMOVE and RMDIR starts on its encoded arguments. Whether they could be decoded
/// matters only once the file system has said that it can be written.
pub open spec fn remove_starts(s: Seq<u8>, r: Step<RemoveCall>) -> bool {
    r matches Step::Ask(RemoveCall::Caps { decoded }) && match parse_diropargs3(s) {
        Ok((v, _)) => decoded matches Ok(args) && args@ == v,
        Err(e) => decoded == Err::<diropargs3, XdrError>(e),
    }
}

/// Starts REMOVE and RMDIR.
pub fn nfsproc3_remove(input: Input) -> (r: Step<RemoveCall>)
    ensures
        remove_starts(input@, r),
{
    let mut input = input;
    Step::Ask(RemoveCall::Caps { decoded: diropargs3::deserialize(&mut input) })
}

impl RemoveCall {
    /// How many answers at most it takes after the next one.
    pub open spec fn remaining(self) -> nat {
        match self {
            RemoveCall::Caps { .. } => 4,
            RemoveCall::Handle { .. } => 3,
            RemoveCall::Attr { .. } => 2,
            RemoveCall::Remove { .. } => 1,
            RemoveCall::After { .. } => 0,
        }
    }

    /// It changes nothing any more.
    pub open spec fn settled(self) -> bool {
        self is After
    }
}

impl Procedure for RemoveCall {
    open spec fn starts(xid: u32, s: Seq<u8>, r: Step<RemoveCall>) -> bool {
        remove_starts(s, r)
    }

    open spec fn asks<'a>(&'a self, context: &'a CallContext) -> FsRequest<'a> {
        match self {
            RemoveCall::Caps { .. } => FsRequest::Capabilities,
            RemoveCall::Handle { args } => FsRequest::FhToId { handle: &args.dir },
            RemoveCall::Attr { dirid, .. } => FsRequest::Getattr {
                auth: &context.auth,
                id: *dirid,
            },
            RemoveCall::Remove { dirid, name, .. } => FsRequest::Remove {
                auth: &context.auth,
                dirid: *dirid,
                name,
            },
            RemoveCall::After { dirid, .. } => FsRequest::Getattr {
                auth: &context.auth,
                id: *dirid,
            },
        }
    }

    open spec fn next(self, xid: u32, answer: FsAnswer) -> Outcome<RemoveCall> {
        match (self, answer) {
            (RemoveCall::Caps { .. }, FsAnswer::Capabilities(VFSCapabilities::ReadOnly)) =>
                Outcome::Reply(lost_reply(xid, nfsstat3::NFS3ERR_ROFS)),
            (
                RemoveCall::Caps { decoded: Ok(args) },
                FsAnswer::Capabilities(VFSCapabilities::ReadWrite),
            ) => Outcome::Ask(RemoveCall::Handle { args }),
            (
                RemoveCall::Caps { decoded: Err(e) },
                FsAnswer::Capabilities(VFSCapabilities::ReadWrite),
            ) => Outcome::Fail(e),
            (RemoveCall::Handle { args }, FsAnswer::Id(Ok(dirid))) => Outcome::Ask(
                RemoveCall::Attr { dirid, name: args.name },
            ),
            (RemoveCall::Handle { .. }, FsAnswer::Id(Err(stat))) => Outcome::Reply(
                lost_reply(xid, stat),
            ),
            (RemoveCall::Attr { dirid, name }, FsAnswer::Attr(Ok(attr))) => Outcome::Ask(
                RemoveCall::Remove { dirid, name, before: pre_op_attr::of_getattr(Ok(attr)) },
            ),
            (RemoveCall::Attr { .. }, FsAnswer::Attr(Err(stat))) => Outcome::Reply(
                lost_reply(xid, stat),
            ),
            (RemoveCall::Remove { dirid, before, .. }, FsAnswer::Done(done)) => Outcome::Ask(
                RemoveCall::After { dirid, stat: status_of(done), before },
            ),
            (RemoveCall::After { stat, before, .. }, FsAnswer::Attr(attr)) => Outcome::Reply(
                wcc_reply(xid, stat, wcc_data { before, after: post_op_attr::of_getattr(attr) }),
            ),
            _ => Outcome::Unexpected,
        }
    }

    open spec fn encodable(self) -> bool {
        true
    }

    open spec fn as_call(self) -> NfsCall {
        NfsCall::Remove(self)
    }

    fn start(xid: u32, input: Input) -> (r: Step<RemoveCall>) {
        nfsproc3_remove(input)
    }

    fn request<'a>(&'a self, context: &'a CallContext) -> (r: FsRequest<'a>) {
        match self {
            RemoveCall::Caps { .. } => FsRequest::Capabilities,
            RemoveCall::Handle { args } => FsRequest::FhToId { handle: &args.dir },
            RemoveCall::Attr { dirid, .. } => FsRequest::Getattr {
                auth: &context.auth,
                id: *dirid,
            },
            RemoveCall::Remove { dirid, name, .. } => FsRequest::Remove {
                auth: &context.auth,
                dirid: *dirid,
                name,
            },
            RemoveCall::After { dirid, .. } => FsRequest::Getattr {
                auth: &context.auth,
                id: *dirid,
            },
        }
    }

    fn resume(self, xid: u32, answer: FsAnswer) -> (r: Step<RemoveCall>) {
        match (self, answer) {
            (RemoveCall::Caps { .. }, FsAnswer::Capabilities(VFSCapabilities::ReadOnly)) =>
                Step::Reply(reply_lost(xid, nfsstat3::NFS3ERR_ROFS)),
            (
                RemoveCall::Caps { decoded: Ok(args) },
                FsAnswer::Capabilities(VFSCapabilities::ReadWrite),
            ) => Step::Ask(RemoveCall::Handle { args }),
            (
                RemoveCall::Caps { decoded: Err(e) },
                FsAnswer::Capabilities(VFSCapabilities::ReadWrite),
            ) => Step::Fail(e),
            (RemoveCall::Handle { args }, FsAnswer::Id(Ok(dirid))) => Step::Ask(
                RemoveCall::Attr { dirid, name: args.name },
            ),
            (RemoveCall::Handle { .. }, FsAnswer::Id(Err(stat))) => Step::Reply(
                reply_lost(xid, stat),
            ),
            (RemoveCall::Attr { dirid, name }, FsAnswer::Attr(Ok(attr))) => Step::Ask(
                RemoveCall::Remove { dirid, name, before: pre_op_attr::from_getattr(&Ok(attr)) },
            ),
            (RemoveCall::Attr { .. }, FsAnswer::Attr(Err(stat))) => Step::Reply(
                reply_lost(xid, stat),
            ),
            (RemoveCall::Remove { dirid, before, .. }, FsAnswer::Done(done)) => Step::Ask(
                RemoveCall::After { dirid, stat: to_status(done), before },
            ),
            (RemoveCall::After { stat, before, .. }, FsAnswer::Attr(attr)) => Step::Reply(
                reply_wcc(xid, stat, wcc_data { before, after: post_op_attr::from_getattr(&attr) }),
            ),
            _ => Step::Unexpected,
        }
    }

    fn into_call(self) -> (r: NfsCall) {
        NfsCall::Remove(self)
    }

    proof fn fitting_answer_is_expected(self, context: CallContext, xid: u32, answer: FsAnswer) {
    }

    proof fn answer_brings_reply_nearer(self, xid: u32, answer: FsAnswer) {
        reveal(nearer);
    }

    proof fn changes_at_most_once(self, context: CallContext, xid: u32, answer: FsAnswer) {
        reveal(is_settled);
    }

    proof fn asks_for_the_caller(self, context: CallContext) {
    }
}

// ---------------------------------------------------------------------- RENAME

/// A RENAME call that is being served.
pub enum RenameCall {
    Caps { decoded: Result<RENAME3args, XdrError> },
    FromHandle { args: RENAME3args },
    ToHandle { from_dirid: fileid3, args: RENAME3args },
    FromAttr { from_dirid: fileid3, to_dirid: fileid3, args: RENAME3args },
    ToAttr { from_dirid: fileid3, to_dirid: fileid3, args: RENAME3args, from_before: pre_op_attr },
    Rename {
        from_dirid: fileid3,
        to_dirid: fileid3,
        args: RENAME3args,
        from_before: pre_op_attr,
        to_before: pre_op_attr,
    },
    FromAfter {
        from_dirid: fileid3,
        to_dirid: fileid3,
        stat: nfsstat3,
        from_before: pre_op_attr,
        to_before: pre_op_attr,
    },
    ToAfter { to_dirid: fileid3, stat: nfsstat3, from_wcc: wcc_data, to_before: pre_op_attr },
}

/// How RENAME starts on its encoded arguments. Whether they could be decoded
/// matters only once the file system has said that it can be written.
pub open spec fn rename_starts(s: Seq<u8>, r: Step<RenameCall>) -> bool {
    r matches Step::Ask(RenameCall::Caps { decoded }) && match parse_RENAME3args(s) {
        Ok((v, _)) => decoded matches Ok(args) && args@ == v,
        Err(e) => decoded == Err::<RENAME3args, XdrError>(e),
    }
}

/// Starts RENAME.
pub fn nfsproc3_rename(input: Input) -> (r: Step<RenameCall>)
    ensures
        rename_starts(input@, r),
{
    let mut input = input;
    Step::Ask(RenameCall::Caps { decoded: RENAME3args::deserialize(&mut input) })
}

/// The reply of a RENAME: a status, and both directories before and after.
pub open spec fn rename_reply(
    xid: u32,
    stat: nfsstat3,
    from_wcc: wcc_data,
    to_wcc: wcc_data,
) -> Seq<u8> {
    wcc_reply(xid, stat, from_wcc) + to_wcc.encoding()
}

/// The reply of a RENAME that failed with nothing known of either directory.
pub open spec fn rename_lost(xid: u32, stat: nfsstat3) -> Seq<u8> {
    rename_reply(xid, stat, wcc_data::unknown(), wcc_data::unknown())
}

fn reply_rename(xid: u32, stat: nfsstat3, from_wcc: wcc_data, to_wcc: wcc_data) -> (out: Vec<u8>)
    ensures
        out@ == rename_reply(xid, stat, from_wcc, to_wcc),
{
    let mut out = reply_wcc(xid, stat, from_wcc);
    to_wcc.serialize(&mut out);
    out
}

fn reply_rename_lost(xid: u32, stat: nfsstat3) -> (out: Vec<u8>)
    ensures
        out@ == rename_lost(xid, stat),
{
    reply_rename(xid, stat, wcc_data::default(), wcc_data::default())
}

impl RenameCall {
    /// How many answers at most it takes after the next one.
    pub open spec fn remaining(self) -> nat {
        match self {
            RenameCall::Caps { .. } => 7,
            RenameCall::FromHandle { .. } => 6,
            RenameCall::ToHandle { .. } => 5,
            RenameCall::FromAttr { .. } => 4,
            RenameCall::ToAttr { .. } => 3,
            RenameCall::Rename { .. } => 2,
            RenameCall::FromAfter { .. } => 1,
            RenameCall::ToAfter { .. } => 0,
        }
    }

    /// It changes nothing any more.
    pub open spec fn settled(self) -> bool {
        self is FromAfter || self is ToAfter
    }
}

impl Procedure for RenameCall {
    open spec fn starts(xid: u32, s: Seq<u8>, r: Step<RenameCall>) -> bool {
        rename_starts(s, r)
    }

    open spec fn asks<'a>(&'a self, context: &'a CallContext) -> FsRequest<'a> {
        match self {
            RenameCall::Caps { .. } => FsRequest::Capabilities,
            RenameCall::FromHandle { args } => FsRequest::FhToId { handle: &args.from.dir },
            RenameCall::ToHandle { args, .. } => FsRequest::FhToId { handle: &args.to.dir },
            RenameCall::FromAttr { from_dirid, .. } => FsRequest::Getattr {
                auth: &context.auth,
                id: *from_dirid,
            },
            RenameCall::ToAttr { to_dirid, .. } => FsRequest::Getattr {
                auth: &context.auth,
                id: *to_dirid,
            },
            RenameCall::Rename { from_dirid, to_dirid, args, .. } => FsRequest::Rename {
                auth: &context.auth,
                from_dirid: *from_dirid,
                from_name: &args.from.name,
                to_dirid: *to_dirid,
                to_name: &args.to.name,
            },
            RenameCall::FromAfter { from_dirid, .. } => FsRequest::Getattr {
                auth: &context.auth,
                id: *from_dirid,
            },
            RenameCall::ToAfter { to_dirid, .. } => FsRequest::Getattr {
                auth: &context.auth,
                id: *to_dirid,
            },
        }
    }

    open spec fn next(self, xid: u32, answer: FsAnswer) -> Outcome<RenameCall> {
        match (self, answer) {
            (RenameCall::Caps { .. }, FsAnswer::Capabilities(VFSCapabilities::ReadOnly)) =>
                Outcome::Reply(rename_lost(xid, nfsstat3::NFS3ERR_ROFS)),
            (
                RenameCall::Caps { decoded: Ok(args) },
                FsAnswer::Capabilities(VFSCapabilities::ReadWrite),
            ) => Outcome::Ask(RenameCall::FromHandle { args }),
            (
                RenameCall::Caps { decoded: Err(e) },
                FsAnswer::Capabilities(VFSCapabilities::ReadWrite),
            ) => Outcome::Fail(e),
            (RenameCall::FromHandle { args }, FsAnswer::Id(Ok(from_dirid))) => Outcome::Ask(
                RenameCall::ToHandle { from_dirid, args },
            ),
            (RenameCall::FromHandle { .. }, FsAnswer::Id(Err(stat))) => Outcome::Reply(
                rename_lost(xid, stat),
            ),
            (RenameCall::ToHandle { from_dirid, args }, FsAnswer::Id(Ok(to_dirid))) => Outcome::Ask(
                RenameCall::FromAttr { from_dirid, to_dirid, args },
            ),
            (RenameCall::ToHandle { .. }, FsAnswer::Id(Err(stat))) => Outcome::Reply(
                rename_lost(xid, stat),
            ),
            (RenameCall::FromAttr { from_dirid, to_dirid, args }, FsAnswer::Attr(Ok(attr))) =>
                Outcome::Ask(
                    RenameCall::ToAttr {
                        from_dirid,
                        to_dirid,
                        args,
                        from_before: pre_op_attr::of_getattr(Ok(attr)),
                    },
                ),
            (RenameCall::FromAttr { .. }, FsAnswer::Attr(Err(stat))) => Outcome::Reply(
                rename_lost(xid, stat),
            ),
            (
                RenameCall::ToAttr { from_dirid, to_dirid, args, from_before },
                FsAnswer::Attr(Ok(attr)),
            ) => Outcome::Ask(
                RenameCall::Rename {
                    from_dirid,
                    to_dirid,
                    args,
                    from_before,
                    to_before: pre_op_attr::of_getattr(Ok(attr)),
                },
            ),
            (RenameCall::ToAttr { .. }, FsAnswer::Attr(Err(stat))) => Outcome::Reply(
                rename_lost(xid, stat),
            ),
            (
                RenameCall::Rename { from_dirid, to_dirid, from_before, to_before, .. },
                FsAnswer::Done(done),
            ) => Outcome::Ask(
                RenameCall::FromAfter {
                    from_dirid,
                    to_dirid,
                    stat: status_of(done),
                    from_before,
                    to_before,
                },
            ),
            (
                RenameCall::FromAfter { to_dirid, stat, from_before, to_before, .. },
                FsAnswer::Attr(attr),
            ) => Outcome::Ask(
                RenameCall::ToAfter {
                    to_dirid,
                    stat,
                    from_wcc: wcc_data {
                        before: from_before,
                        after: post_op_attr::of_getattr(attr),
                    },
                    to_before,
                },
            ),
            (RenameCall::ToAfter { stat, from_wcc, to_before, .. }, FsAnswer::Attr(attr)) => {
                let to_wcc = wcc_data { before: to_before, after: post_op_attr::of_getattr(attr) };
                Outcome::Reply(rename_reply(xid, stat, from_wcc, to_wcc))
            },
            _ => Outcome::Unexpected,
        }
    }

    open spec fn encodable(self) -> bool {
        true
    }

    open spec fn as_call(self) -> NfsCall {
        NfsCall::Rename(self)
    }

    fn start(xid: u32, input: Input) -> (r: Step<RenameCall>) {
        nfsproc3_rename(input)
    }

    fn request<'a>(&'a self, context: &'a CallContext) -> (r: FsRequest<'a>) {
        match self {
            RenameCall::Caps { .. } => FsRequest::Capabilities,
            RenameCall::FromHandle { args } => FsRequest::FhToId { handle: &args.from.dir },
            RenameCall::ToHandle { args, .. } => FsRequest::FhToId { handle: &args.to.dir },
            RenameCall::FromAttr { from_dirid, .. } => FsRequest::Getattr {
                auth: &context.auth,
                id: *from_dirid,
            },
            RenameCall::ToAttr { to_dirid, .. } => FsRequest::Getattr {
                auth: &context.auth,
                id: *to_dirid,
            },
            RenameCall::Rename { from_dirid, to_dirid, args, .. } => FsRequest::Rename {
                auth: &context.auth,
                from_dirid: *from_dirid,
                from_name: &args.from.name,
                to_dirid: *to_dirid,
                to_name: &args.to.name,
            },
            RenameCall::FromAfter { from_dirid, .. } => FsRequest::Getattr {
                auth: &context.auth,
                id: *from_dirid,
            },
            RenameCall::ToAfter { to_dirid, .. } => FsRequest::Getattr {
                auth: &context.auth,
                id: *to_dirid,
            },
        }
    }

    fn resume(self, xid: u32, answer: FsAnswer) -> (r: Step<RenameCall>) {
        match (self, answer) {
            (RenameCall::Caps { .. }, FsAnswer::Capabilities(VFSCapabilities::ReadOnly)) =>
                Step::Reply(reply_rename_lost(xid, nfsstat3::NFS3ERR_ROFS)),
            (
                RenameCall::Caps { decoded: Ok(args) },
                FsAnswer::Capabilities(VFSCapabilities::ReadWrite),
            ) => Step::Ask(RenameCall::FromHandle { args }),
            (
                RenameCall::Caps { decoded: Err(e) },
                FsAnswer::Capabilities(VFSCapabilities::ReadWrite),
            ) => Step::Fail(e),
            (RenameCall::FromHandle { args }, FsAnswer::Id(Ok(from_dirid))) => Step::Ask(
                RenameCall::ToHandle { from_dirid, args },
            ),
            (RenameCall::FromHandle { .. }, FsAnswer::Id(Err(stat))) => Step::Reply(
                reply_rename_lost(xid, stat),
            ),
            (RenameCall::ToHandle { from_dirid, args }, FsAnswer::Id(Ok(to_dirid))) => Step::Ask(
                RenameCall::FromAttr { from_dirid, to_dirid, args },
            ),
            (RenameCall::ToHandle { .. }, FsAnswer::Id(Err(stat))) => Step::Reply(
                reply_rename_lost(xid, stat),
            ),
            (RenameCall::FromAttr { from_dirid, to_dirid, args }, FsAnswer::Attr(Ok(attr))) =>
                Step::Ask(
                    RenameCall::ToAttr {
                        from_dirid,
                        to_dirid,
                        args,
                        from_before: pre_op_attr::from_getattr(&Ok(attr)),
                    },
                ),
            (RenameCall::FromAttr { .. }, FsAnswer::Attr(Err(stat))) => Step::Reply(
                reply_rename_lost(xid, stat),
            ),
            (
                RenameCall::ToAttr { from_dirid, to_dirid, args, from_before },
                FsAnswer::Attr(Ok(attr)),
            ) => Step::Ask(
                RenameCall::Rename {
                    from_dirid,
                    to_dirid,
                    args,
                    from_before,
                    to_before: pre_op_attr::from_getattr(&Ok(attr)),
                },
            ),
            (RenameCall::ToAttr { .. }, FsAnswer::Attr(Err(stat))) => Step::Reply(
                reply_rename_lost(xid, stat),
            ),
            (
                RenameCall::Rename { from_dirid, to_dirid, from_before, to_before, .. },
                FsAnswer::Done(done),
            ) => Step::Ask(
                RenameCall::FromAfter {
                    from_dirid,
                    to_dirid,
                    stat: to_status(done),
                    from_before,
                    to_before,
                },
            ),
            (
                RenameCall::FromAfter { to_dirid, stat, from_before, to_before, .. },
                FsAnswer::Attr(attr),
            ) => Step::Ask(
                RenameCall::ToAfter {
                    to_dirid,
                    stat,
                    from_wcc: wcc_data {
                        before: from_before,
                        after: post_op_attr::from_getattr(&attr),
                    },
                    to_before,
                },
            ),
            (RenameCall::ToAfter { stat, from_wcc, to_before, .. }, FsAnswer::Attr(attr)) => {
                let to_wcc = wcc_data {
                    before: to_before,
                    after: post_op_attr::from_getattr(&attr),
                };
                Step::Reply(reply_rename(xid, stat, from_wcc, to_wcc))
            },
            _ => Step::Unexpected,
        }
    }

    fn into_call(self) -> (r: NfsCall) {
        NfsCall::Rename(self)
    }

    proof fn fitting_answer_is_expected(self, context: CallContext, xid: u32, answer: FsAnswer) {
    }

    proof fn answer_brings_reply_nearer(self, xid: u32, answer: FsAnswer) {
        reveal(nearer);
    }

    proof fn changes_at_most_once(self, context: CallContext, xid: u32, answer: FsAnswer) {
        reveal(is_settled);
    }

    proof fn asks_for_the_caller(self, context: CallContext) {
    }
}

// ------------------------------------------------------------------------ LINK

/// A LINK call that is being served.
pub enum LinkCall {
    FileHandle { args: LINK3args },
    DirHandle { id: fileid3, link: diropargs3 },
    FileAttr { id: fileid3, dirid: fileid3, name: filename3 },
    DirAttr { id: fileid3, dirid: fileid3, name: filename3, file_attr: post_op_attr },
    Link {
        id: fileid3,
        dirid: fileid3,
        name: filename3,
        file_attr: post_op_attr,
        before: pre_op_attr,
    },
    FileAfter { id: fileid3, dirid: fileid3, before: pre_op_attr },
    DirAfter { dirid: fileid3, stat: nfsstat3, file_attr: post_op_attr, before: pre_op_attr },
}

/// How LINK starts on its encoded arguments.
pub open spec fn link_starts(s: Seq<u8>, r: Step<LinkCall>) -> bool {
    match parse_LINK3args(s) {
        Ok((v, _)) => r matches Step::Ask(LinkCall::FileHandle { args }) && args@ == v,
        Err(e) => r == Step::<LinkCall>::Fail(e),
    }
}

/// Starts LINK.
pub fn nfsproc3_link(input: Input) -> (r: Step<LinkCall>)
    ensures
        link_starts(input@, r),
{
    let mut input = input;
    match LINK3args::deserialize(&mut input) {
        Ok(args) => Step::Ask(LinkCall::FileHandle { args }),
        Err(e) => Step::Fail(e),
    }
}

/// The reply of a LINK: the file, and the directory before and after.
pub open spec fn link_reply(
    xid: u32,
    stat: nfsstat3,
    file_attr: post_op_attr,
    wcc: wcc_data,
) -> Seq<u8> {
    attr_reply(xid, stat, file_attr) + wcc.encoding()
}

fn reply_link(xid: u32, stat: nfsstat3, file_attr: post_op_attr, wcc: wcc_data) -> (out: Vec<u8>)
    ensures
        out@ == link_reply(xid, stat, file_attr, wcc),
{
    let mut out = reply_attr(xid, stat, file_attr);
    wcc.serialize(&mut out);
    out
}

impl LinkCall {
    /// How many answers at most it takes after the next one.
    pub open spec fn remaining(self) -> nat {
        match self {
            LinkCall::FileHandle { .. } => 6,
            LinkCall::DirHandle { .. } => 5,
            LinkCall::FileAttr { .. } => 4,
            LinkCall::DirAttr { .. } => 3,
            LinkCall::Link { .. } => 2,
            LinkCall::FileAfter { .. } => 1,
            LinkCall::DirAfter { .. } => 0,
        }
    }

    /// It changes nothing any more.
    pub open spec fn settled(self) -> bool {
        self is FileAfter || self is DirAfter
    }
}

impl Procedure for LinkCall {
    open spec fn starts(xid: u32, s: Seq<u8>, r: Step<LinkCall>) -> bool {
        link_starts(s, r)
    }

    open spec fn asks<'a>(&'a self, context: &'a CallContext) -> FsRequest<'a> {
        match self {
            LinkCall::FileHandle { args } => FsRequest::FhToId { handle: &args.file },
            LinkCall::DirHandle { link, .. } => FsRequest::FhToId { handle: &link.dir },
            LinkCall::FileAttr { id, .. } => FsRequest::Getattr { auth: &context.auth, id: *id },
            LinkCall::DirAttr { dirid, .. } => FsRequest::Getattr {
                auth: &context.auth,
                id: *dirid,
            },
            LinkCall::Link { id, dirid, name, .. } => FsRequest::Link {
                auth: &context.auth,
                id: *id,
                dirid: *dirid,
                name,
            },
            LinkCall::FileAfter { id, .. } => FsRequest::Getattr { auth: &context.auth, id: *id },
            LinkCall::DirAfter { dirid, .. } => FsRequest::Getattr {
                auth: &context.auth,
                id: *dirid,
            },
        }
    }

    open spec fn next(self, xid: u32, answer: FsAnswer) -> Outcome<LinkCall> {
        match (self, answer) {
            (LinkCall::FileHandle { args }, FsAnswer::Id(Ok(id))) => Outcome::Ask(
                LinkCall::DirHandle { id, link: args.link },
            ),
            (LinkCall::FileHandle { .. }, FsAnswer::Id(Err(_))) => Outcome::Reply(
                link_reply(xid, nfsstat3::NFS3ERR_STALE, post_op_attr::Void, wcc_data::unknown()),
            ),
            (LinkCall::DirHandle { id, link }, FsAnswer::Id(Ok(dirid))) => Outcome::Ask(
                LinkCall::FileAttr { id, dirid, name: link.name },
            ),
            (LinkCall::DirHandle { .. }, FsAnswer::Id(Err(_))) => Outcome::Reply(
                link_reply(xid, nfsstat3::NFS3ERR_STALE, post_op_attr::Void, wcc_data::unknown()),
            ),
            (LinkCall::FileAttr { id, dirid, name }, FsAnswer::Attr(attr)) => Outcome::Ask(
                LinkCall::DirAttr { id, dirid, name, file_attr: post_op_attr::of_getattr(attr) },
            ),
            (LinkCall::DirAttr { id, dirid, name, file_attr }, FsAnswer::Attr(attr)) =>
                Outcome::Ask(
                    LinkCall::Link {
                        id,
                        dirid,
                        name,
                        file_attr,
                        before: pre_op_attr::of_getattr(attr),
                    },
                ),
            (LinkCall::Link { id, dirid, before, .. }, FsAnswer::Done(Ok(_))) => Outcome::Ask(
                LinkCall::FileAfter { id, dirid, before },
            ),
            (LinkCall::Link { dirid, file_attr, before, .. }, FsAnswer::Done(Err(stat))) =>
                Outcome::Ask(LinkCall::DirAfter { dirid, stat, file_attr, before }),
            (LinkCall::FileAfter { dirid, before, .. }, FsAnswer::Attr(attr)) => Outcome::Ask(
                LinkCall::DirAfter {
                    dirid,
                    stat: nfsstat3::NFS3_OK,
                    file_attr: post_op_attr::of_getattr(attr),
                    before,
                },
            ),
            (LinkCall::DirAfter { stat, file_attr, before, .. }, FsAnswer::Attr(attr)) =>
                Outcome::Reply(
                    link_reply(
                        xid,
                        stat,
                        file_attr,
                        wcc_data { before, after: post_op_attr::of_getattr(attr) },
                    ),
                ),
            _ => Outcome::Unexpected,
        }
    }

    open spec fn encodable(self) -> bool {
        true
    }

    open spec fn as_call(self) -> NfsCall {
        NfsCall::Link(self)
    }

    fn start(xid: u32, input: Input) -> (r: Step<LinkCall>) {
        nfsproc3_link(input)
    }

    fn request<'a>(&'a self, context: &'a CallContext) -> (r: FsRequest<'a>) {
        match self {
            LinkCall::FileHandle { args } => FsRequest::FhToId { handle: &args.file },
            LinkCall::DirHandle { link, .. } => FsRequest::FhToId { handle: &link.dir },
            LinkCall::FileAttr { id, .. } => FsRequest::Getattr { auth: &context.auth, id: *id },
            LinkCall::DirAttr { dirid, .. } => FsRequest::Getattr {
                auth: &context.auth,
                id: *dirid,
            },
            LinkCall::Link { id, dirid, name, .. } => FsRequest::Link {
                auth: &context.auth,
                id: *id,
                dirid: *dirid,
                name,
            },
            LinkCall::FileAfter { id, .. } => FsRequest::Getattr { auth: &context.auth, id: *id },
            LinkCall::DirAfter { dirid, .. } => FsRequest::Getattr {
                auth: &context.auth,
                id: *dirid,
            },
        }
    }

    fn resume(self, xid: u32, answer: FsAnswer) -> (r: Step<LinkCall>) {
        match (self, answer) {
            (LinkCall::FileHandle { args }, FsAnswer::Id(Ok(id))) => Step::Ask(
                LinkCall::DirHandle { id, link: args.link },
            ),
            (LinkCall::FileHandle { .. }, FsAnswer::Id(Err(_))) => Step::Reply(
                reply_link(xid, nfsstat3::NFS3ERR_STALE, post_op_attr::Void, wcc_data::default()),
            ),
            (LinkCall::DirHandle { id, link }, FsAnswer::Id(Ok(dirid))) => Step::Ask(
                LinkCall::FileAttr { id, dirid, name: link.name },
            ),
            (LinkCall::DirHandle { .. }, FsAnswer::Id(Err(_))) => Step::Reply(
                reply_link(xid, nfsstat3::NFS3ERR_STALE, post_op_attr::Void, wcc_data::default()),
            ),
            (LinkCall::FileAttr { id, dirid, name }, FsAnswer::Attr(attr)) => Step::Ask(
                LinkCall::DirAttr { id, dirid, name, file_attr: post_op_attr::from_getattr(&attr) },
            ),
            (LinkCall::DirAttr { id, dirid, name, file_attr }, FsAnswer::Attr(attr)) => Step::Ask(
                LinkCall::Link {
                    id,
                    dirid,
                    name,
                    file_attr,
                    before: pre_op_attr::from_getattr(&attr),
                },
            ),
            (LinkCall::Link { id, dirid, before, .. }, FsAnswer::Done(Ok(_))) => Step::Ask(
                LinkCall::FileAfter { id, dirid, before },
            ),
            (LinkCall::Link { dirid, file_attr, before, .. }, FsAnswer::Done(Err(stat))) =>
                Step::Ask(LinkCall::DirAfter { dirid, stat, file_attr, before }),
            (LinkCall::FileAfter { dirid, before, .. }, FsAnswer::Attr(attr)) => Step::Ask(
                LinkCall::DirAfter {
                    dirid,
                    stat: nfsstat3::NFS3_OK,
                    file_attr: post_op_attr::from_getattr(&attr),
                    before,
                },
            ),
            (LinkCall::DirAfter { stat, file_attr, before, .. }, FsAnswer::Attr(attr)) => {
                let wcc = wcc_data { before, after: post_op_attr::from_getattr(&attr) };
                Step::Reply(reply_link(xid, stat, file_attr, wcc))
            },
            _ => Step::Unexpected,
        }
    }

    fn into_call(self) -> (r: NfsCall) {
        NfsCall::Link(self)
    }

    proof fn fitting_answer_is_expected(self, context: CallContext, xid: u32, answer: FsAnswer) {
    }

    proof fn answer_brings_reply_nearer(self, xid: u32, answer: FsAnswer) {
        reveal(nearer);
    }

    proof fn changes_at_most_once(self, context: CallContext, xid: u32, answer: FsAnswer) {
        reveal(is_settled);
    }

    proof fn asks_for_the_caller(self, context: CallContext) {
    }
}

} // verus!
