//! Procedures that make an object: CREATE, MKDIR, SYMLINK, MKNOD.
use super::dispatch::{is_settled, nearer, NfsCall, Procedure};
use super::{
    created_reply, lost_reply, reply_created, reply_lost, reply_wcc, wcc_reply, Outcome, Step,
};
use crate::nfs::{
    fattr3, fileid3, filename3, ftype3, nfs_fh3, nfsstat3, post_op_attr, pre_op_attr, specdata3,
    wcc_data,
};
use crate::nfs_args::{
    createhow3, parse_CREATE3args, parse_MKDIR3args, parse_MKNOD3args, parse_SYMLINK3args, sattr3,
    CREATE3args, MKDIR3args, MKNOD3args, SYMLINK3args,
};
use crate::vfs::{CallContext, FsAnswer, FsRequest, VFSCapabilities};
use crate::xdr::{Input, XdrError};
use vstd::prelude::*;

verus! {

// ---------------------------------------------------------------------- CREATE

/// A CREATE call that is being served.
pub enum CreateCall {
    Caps { decoded: Result<CREATE3args, XdrError> },
    Handle { args: CREATE3args },
    Attr { dirid: fileid3, name: filename3, how: createhow3 },
    Exists { dirid: fileid3, name: filename3, attributes: sattr3, before: pre_op_attr },
    Taken { dirid: fileid3, before: pre_op_attr },
    Make { dirid: fileid3, name: filename3, attributes: sattr3, before: pre_op_attr },
    MakeExclusive { dirid: fileid3, name: filename3, before: pre_op_attr },
    After { dirid: fileid3, made: Result<(fileid3, post_op_attr), nfsstat3>, before: pre_op_attr },
    ObjHandle { id: fileid3, attr: post_op_attr, wcc: wcc_data },
}

/// How CREATE starts on its encoded arguments. Whether they could be decoded
/// matters only once the file system has said that it can be written.
pub open spec fn create_starts(s: Seq<u8>, r: Step<CreateCall>) -> bool {
    r matches Step::Ask(CreateCall::Caps { decoded }) && match parse_CREATE3args(s) {
        Ok(v) => decoded matches Ok(args) && args@ == v,
        Err(e) => decoded == Err::<CREATE3args, XdrError>(e),
    }
}

/// Starts CREATE.
pub fn nfsproc3_create(input: Input) -> (r: Step<CreateCall>)
    ensures
        create_starts(input@, r),
{
    let mut input = input;
    Step::Ask(CreateCall::Caps { decoded: CREATE3args::deserialize(&mut input) })
}

/// What the mode leads to, once the directory is known. Unchecked and exclusive
/// creation go ahead; guarded creation looks first whether the name is taken.
pub open spec fn by_mode(
    dirid: fileid3,
    name: filename3,
    how: createhow3,
    before: pre_op_attr,
) -> Outcome<CreateCall> {
    match how {
        createhow3::UNCHECKED(Ok(attributes)) => Outcome::Ask(
            CreateCall::Make { dirid, name, attributes, before },
        ),
        createhow3::GUARDED(Ok(attributes)) => Outcome::Ask(
            CreateCall::Exists { dirid, name, attributes, before },
        ),
        createhow3::EXCLUSIVE => Outcome::Ask(CreateCall::MakeExclusive { dirid, name, before }),
        createhow3::UNCHECKED(Err(e)) | createhow3::GUARDED(Err(e)) => Outcome::Fail(e),
    }
}

fn start_by_mode(
    dirid: fileid3,
    name: filename3,
    how: createhow3,
    before: pre_op_attr,
) -> (r: Step<CreateCall>)
    ensures
        r@ == by_mode(dirid, name, how, before),
{
    match how {
        createhow3::UNCHECKED(Ok(attributes)) => Step::Ask(
            CreateCall::Make { dirid, name, attributes, before },
        ),
        createhow3::GUARDED(Ok(attributes)) => Step::Ask(
            CreateCall::Exists { dirid, name, attributes, before },
        ),
        createhow3::EXCLUSIVE => Step::Ask(CreateCall::MakeExclusive { dirid, name, before }),
        createhow3::UNCHECKED(Err(e)) | createhow3::GUARDED(Err(e)) => Step::Fail(e),
    }
}

impl CreateCall {
    /// How many answers at most it takes after the next one.
    pub open spec fn remaining(self) -> nat {
        match self {
            CreateCall::Caps { .. } => 6,
            CreateCall::Handle { .. } => 5,
            CreateCall::Attr { .. } => 4,
            CreateCall::Exists { .. } => 3,
            CreateCall::Taken { .. } => 0,
            CreateCall::Make { .. } => 2,
            CreateCall::MakeExclusive { .. } => 2,
            CreateCall::After { .. } => 1,
            CreateCall::ObjHandle { .. } => 0,
        }
    }

    /// It changes nothing any more.
    pub open spec fn settled(self) -> bool {
        self is After || self is ObjHandle
    }
}

impl Procedure for CreateCall {
    open spec fn starts(xid: u32, s: Seq<u8>, r: Step<CreateCall>) -> bool {
        create_starts(s, r)
    }

    open spec fn asks<'a>(&'a self, context: &'a CallContext) -> FsRequest<'a> {
        match self {
            CreateCall::Caps { .. } => FsRequest::Capabilities,
            CreateCall::Handle { args } => FsRequest::FhToId { handle: &args.where_.dir },
            CreateCall::Attr { dirid, .. } => FsRequest::Getattr {
                auth: &context.auth,
                id: *dirid,
            },
            CreateCall::Exists { dirid, name, .. } => FsRequest::Lookup {
                auth: &context.auth,
                dirid: *dirid,
                name,
            },
            CreateCall::Taken { dirid, .. } => FsRequest::Getattr {
                auth: &context.auth,
                id: *dirid,
            },
            CreateCall::Make { dirid, name, attributes, .. } => FsRequest::Create {
                auth: &context.auth,
                dirid: *dirid,
                name,
                attr: *attributes,
            },
            CreateCall::MakeExclusive { dirid, name, .. } => FsRequest::CreateExclusive {
                auth: &context.auth,
                dirid: *dirid,
                name,
            },
            CreateCall::After { dirid, .. } => FsRequest::Getattr {
                auth: &context.auth,
                id: *dirid,
            },
            CreateCall::ObjHandle { id, .. } => FsRequest::IdToFh { id: *id },
        }
    }

    open spec fn next(self, xid: u32, answer: FsAnswer) -> Outcome<CreateCall> {
        match (self, answer) {
            (CreateCall::Caps { .. }, FsAnswer::Capabilities(VFSCapabilities::ReadOnly)) =>
                Outcome::Reply(lost_reply(xid, nfsstat3::NFS3ERR_ROFS)),
            (
                CreateCall::Caps { decoded: Ok(args) },
                FsAnswer::Capabilities(VFSCapabilities::ReadWrite),
            ) => Outcome::Ask(CreateCall::Handle { args }),
            (
                CreateCall::Caps { decoded: Err(e) },
                FsAnswer::Capabilities(VFSCapabilities::ReadWrite),
            ) => Outcome::Fail(e),
            (CreateCall::Handle { args }, FsAnswer::Id(Ok(dirid))) => Outcome::Ask(
                CreateCall::Attr { dirid, name: args.where_.name, how: args.how },
            ),
            (CreateCall::Handle { .. }, FsAnswer::Id(Err(stat))) => Outcome::Reply(
                lost_reply(xid, stat),
            ),
            (CreateCall::Attr { dirid, name, how }, FsAnswer::Attr(Ok(attr))) => by_mode(
                dirid,
                name,
                how,
                pre_op_attr::of_getattr(Ok(attr)),
            ),
            (CreateCall::Attr { .. }, FsAnswer::Attr(Err(stat))) => Outcome::Reply(
                lost_reply(xid, stat),
            ),
            (CreateCall::Exists { dirid, before, .. }, FsAnswer::Id(Ok(_))) => Outcome::Ask(
                CreateCall::Taken { dirid, before },
            ),
            (CreateCall::Exists { dirid, name, attributes, before }, FsAnswer::Id(Err(_))) =>
                Outcome::Ask(CreateCall::Make { dirid, name, attributes, before }),
            (CreateCall::Taken { before, .. }, FsAnswer::Attr(attr)) => Outcome::Reply(
                wcc_reply(
                    xid,
                    nfsstat3::NFS3ERR_EXIST,
                    wcc_data { before, after: post_op_attr::of_getattr(attr) },
                ),
            ),
            (CreateCall::Make { dirid, before, .. }, FsAnswer::Created(Ok((id, attr)))) =>
                Outcome::Ask(
                    CreateCall::After {
                        dirid,
                        made: Ok((id, post_op_attr::attributes(attr))),
                        before,
                    },
                ),
            (CreateCall::Make { dirid, before, .. }, FsAnswer::Created(Err(stat))) => Outcome::Ask(
                CreateCall::After { dirid, made: Err(stat), before },
            ),
            (CreateCall::MakeExclusive { dirid, before, .. }, FsAnswer::Id(Ok(id))) => Outcome::Ask(
                CreateCall::After { dirid, made: Ok((id, post_op_attr::Void)), before },
            ),
            (CreateCall::MakeExclusive { dirid, before, .. }, FsAnswer::Id(Err(stat))) =>
                Outcome::Ask(CreateCall::After { dirid, made: Err(stat), before }),
            (CreateCall::After { made: Ok((id, obj_attr)), before, .. }, FsAnswer::Attr(attr)) =>
                Outcome::Ask(
                    CreateCall::ObjHandle {
                        id,
                        attr: obj_attr,
                        wcc: wcc_data { before, after: post_op_attr::of_getattr(attr) },
                    },
                ),
            (CreateCall::After { made: Err(stat), before, .. }, FsAnswer::Attr(attr)) =>
                Outcome::Reply(
                    wcc_reply(
                        xid,
                        stat,
                        wcc_data { before, after: post_op_attr::of_getattr(attr) },
                    ),
                ),
            (CreateCall::ObjHandle { attr, wcc, .. }, FsAnswer::Handle(fh)) => Outcome::Reply(
                created_reply(xid, fh@, attr, wcc),
            ),
            _ => Outcome::Unexpected,
        }
    }

    open spec fn encodable(self) -> bool {
        true
    }

    open spec fn as_call(self) -> NfsCall {
        NfsCall::Create(self)
    }

    fn start(xid: u32, input: Input) -> (r: Step<CreateCall>) {
        nfsproc3_create(input)
    }

    fn request<'a>(&'a self, context: &'a CallContext) -> (r: FsRequest<'a>) {
        match self {
            CreateCall::Caps { .. } => FsRequest::Capabilities,
            CreateCall::Handle { args } => FsRequest::FhToId { handle: &args.where_.dir },
            CreateCall::Attr { dirid, .. } => FsRequest::Getattr {
                auth: &context.auth,
                id: *dirid,
            },
            CreateCall::Exists { dirid, name, .. } => FsRequest::Lookup {
                auth: &context.auth,
                dirid: *dirid,
                name,
            },
            CreateCall::Taken { dirid, .. } => FsRequest::Getattr {
                auth: &context.auth,
                id: *dirid,
            },
            CreateCall::Make { dirid, name, attributes, .. } => FsRequest::Create {
                auth: &context.auth,
                dirid: *dirid,
                name,
                attr: *attributes,
            },
            CreateCall::MakeExclusive { dirid, name, .. } => FsRequest::CreateExclusive {
                auth: &context.auth,
                dirid: *dirid,
                name,
            },
            CreateCall::After { dirid, .. } => FsRequest::Getattr {
                auth: &context.auth,
                id: *dirid,
            },
            CreateCall::ObjHandle { id, .. } => FsRequest::IdToFh { id: *id },
        }
    }

    fn resume(self, xid: u32, answer: FsAnswer) -> (r: Step<CreateCall>) {
        match (self, answer) {
            (CreateCall::Caps { .. }, FsAnswer::Capabilities(VFSCapabilities::ReadOnly)) =>
                Step::Reply(reply_lost(xid, nfsstat3::NFS3ERR_ROFS)),
            (
                CreateCall::Caps { decoded: Ok(args) },
                FsAnswer::Capabilities(VFSCapabilities::ReadWrite),
            ) => Step::Ask(CreateCall::Handle { args }),
            (
                CreateCall::Caps { decoded: Err(e) },
                FsAnswer::Capabilities(VFSCapabilities::ReadWrite),
            ) => Step::Fail(e),
            (CreateCall::Handle { args }, FsAnswer::Id(Ok(dirid))) => Step::Ask(
                CreateCall::Attr { dirid, name: args.where_.name, how: args.how },
            ),
            (CreateCall::Handle { .. }, FsAnswer::Id(Err(stat))) => Step::Reply(
                reply_lost(xid, stat),
            ),
            (CreateCall::Attr { dirid, name, how }, FsAnswer::Attr(Ok(attr))) => start_by_mode(
                dirid,
                name,
                how,
                pre_op_attr::from_getattr(&Ok(attr)),
            ),
            (CreateCall::Attr { .. }, FsAnswer::Attr(Err(stat))) => Step::Reply(
                reply_lost(xid, stat),
            ),
            (CreateCall::Exists { dirid, before, .. }, FsAnswer::Id(Ok(_))) => Step::Ask(
                CreateCall::Taken { dirid, before },
            ),
            (CreateCall::Exists { dirid, name, attributes, before }, FsAnswer::Id(Err(_))) =>
                Step::Ask(CreateCall::Make { dirid, name, attributes, before }),
            (CreateCall::Taken { before, .. }, FsAnswer::Attr(attr)) => Step::Reply(
                reply_wcc(
                    xid,
                    nfsstat3::NFS3ERR_EXIST,
                    wcc_data { before, after: post_op_attr::from_getattr(&attr) },
                ),
            ),
            (CreateCall::Make { dirid, before, .. }, FsAnswer::Created(Ok((id, attr)))) =>
                Step::Ask(
                    CreateCall::After {
                        dirid,
                        made: Ok((id, post_op_attr::attributes(attr))),
                        before,
                    },
                ),
            (CreateCall::Make { dirid, before, .. }, FsAnswer::Created(Err(stat))) => Step::Ask(
                CreateCall::After { dirid, made: Err(stat), before },
            ),
            (CreateCall::MakeExclusive { dirid, before, .. }, FsAnswer::Id(Ok(id))) => Step::Ask(
                CreateCall::After { dirid, made: Ok((id, post_op_attr::Void)), before },
            ),
            (CreateCall::MakeExclusive { dirid, before, .. }, FsAnswer::Id(Err(stat))) => Step::Ask(
                CreateCall::After { dirid, made: Err(stat), before },
            ),
            (CreateCall::After { made: Ok((id, obj_attr)), before, .. }, FsAnswer::Attr(attr)) =>
                Step::Ask(
                    CreateCall::ObjHandle {
                        id,
                        attr: obj_attr,
                        wcc: wcc_data { before, after: post_op_attr::from_getattr(&attr) },
                    },
                ),
            (CreateCall::After { made: Err(stat), before, .. }, FsAnswer::Attr(attr)) =>
                Step::Reply(
                    reply_wcc(
                        xid,
                        stat,
                        wcc_data { before, after: post_op_attr::from_getattr(&attr) },
                    ),
                ),
            (CreateCall::ObjHandle { attr, wcc, .. }, FsAnswer::Handle(fh)) => Step::Reply(
                reply_created(xid, fh, attr, wcc),
            ),
            _ => Step::Unexpected,
        }
    }

    fn into_call(self) -> (r: NfsCall) {
        NfsCall::Create(self)
    }

    proof fn fitting_answer_is_expected(self, context: CallContext, xid: u32, answer: FsAnswer) {
    }

    proof fn answer_brings_reply_nearer(self, xid: u32, answer: FsAnswer) {
        reveal(nearer);
    }

    proof fn changes_at_most_once(self, context: CallContext, xid: u32, answer: FsAnswer) {
        reveal(is_settled);
    }

    proof fn asks_for_the_caller(self, context: CallContext) {
    }
}

/// Guarded creation of a name that is taken makes nothing: it answers that the
/// name exists, with the directory before and after.
pub proof fn lemma_guarded_create_spares_what_exists(
    xid: u32,
    dirid: fileid3,
    name: filename3,
    attributes: sattr3,
    before: pre_op_attr,
    found: fileid3,
    attr: Result<fattr3, nfsstat3>,
)
    ensures
        ({
            let looking = CreateCall::Exists { dirid, name, attributes, before };
            let taken = CreateCall::Taken { dirid, before };
            &&& by_mode(dirid, name, createhow3::GUARDED(Ok(attributes)), before) == Outcome::Ask(
                looking,
            )
            &&& looking.next(xid, FsAnswer::Id(Ok(found))) == Outcome::Ask(taken)
            &&& taken.next(xid, FsAnswer::Attr(attr)) == Outcome::<CreateCall>::Reply(
                wcc_reply(
                    xid,
                    nfsstat3::NFS3ERR_EXIST,
                    wcc_data { before, after: post_op_attr::of_getattr(attr) },
                ),
            )
        }),
{
}

// ----------------------------------------------------------------------- MKDIR

/// A MKDIR call that is being served.
pub enum MkdirCall {
    Caps { decoded: Result<MKDIR3args, XdrError> },
    Handle { args: MKDIR3args },
    Attr { dirid: fileid3, args: MKDIR3args },
    Make { dirid: fileid3, args: MKDIR3args, before: pre_op_attr },
    After { dirid: fileid3, made: Result<(fileid3, fattr3), nfsstat3>, before: pre_op_attr },
    ObjHandle { id: fileid3, attr: fattr3, wcc: wcc_data },
}

/// How MKDIR starts on its encoded arguments. Whether they could be decoded
/// matters only once the file system has said that it can be written.
pub open spec fn mkdir_starts(s: Seq<u8>, r: Step<MkdirCall>) -> bool {
    r matches Step::Ask(MkdirCall::Caps { decoded }) && match parse_MKDIR3args(s) {
        Ok((v, _)) => decoded matches Ok(args) && args@ == v,
        Err(e) => decoded == Err::<MKDIR3args, XdrError>(e),
    }
}

/// Starts MKDIR.
pub fn nfsproc3_mkdir(input: Input) -> (r: Step<MkdirCall>)
    ensures
        mkdir_starts(input@, r),
{
    let mut input = input;
    Step::Ask(MkdirCall::Caps { decoded: MKDIR3args::deserialize(&mut input) })
}

impl MkdirCall {
    /// How many answers at most it takes after the next one.
    pub open spec fn remaining(self) -> nat {
        match self {
            MkdirCall::Caps { .. } => 5,
            MkdirCall::Handle { .. } => 4,
            MkdirCall::Attr { .. } => 3,
            MkdirCall::Make { .. } => 2,
            MkdirCall::After { .. } => 1,
            MkdirCall::ObjHandle { .. } => 0,
        }
    }

    /// It changes nothing any more.
    pub open spec fn settled(self) -> bool {
        self is After || self is ObjHandle
    }
}

impl Procedure for MkdirCall {
    open spec fn starts(xid: u32, s: Seq<u8>, r: Step<MkdirCall>) -> bool {
        mkdir_starts(s, r)
    }

    open spec fn asks<'a>(&'a self, context: &'a CallContext) -> FsRequest<'a> {
        match self {
            MkdirCall::Caps { .. } => FsRequest::Capabilities,
            MkdirCall::Handle { args } => FsRequest::FhToId { handle: &args.dirops.dir },
            MkdirCall::Attr { dirid, .. } => FsRequest::Getattr { auth: &context.auth, id: *dirid },
            MkdirCall::Make { dirid, args, .. } => FsRequest::Mkdir {
                auth: &context.auth,
                dirid: *dirid,
                name: &args.dirops.name,
                attr: args.attributes,
            },
            MkdirCall::After { dirid, .. } => FsRequest::Getattr {
                auth: &context.auth,
                id: *dirid,
            },
            MkdirCall::ObjHandle { id, .. } => FsRequest::IdToFh { id: *id },
        }
    }

    open spec fn next(self, xid: u32, answer: FsAnswer) -> Outcome<MkdirCall> {
        match (self, answer) {
            (MkdirCall::Caps { .. }, FsAnswer::Capabilities(VFSCapabilities::ReadOnly)) =>
                Outcome::Reply(lost_reply(xid, nfsstat3::NFS3ERR_ROFS)),
            (
                MkdirCall::Caps { decoded: Ok(args) },
                FsAnswer::Capabilities(VFSCapabilities::ReadWrite),
            ) => Outcome::Ask(MkdirCall::Handle { args }),
            (
                MkdirCall::Caps { decoded: Err(e) },
                FsAnswer::Capabilities(VFSCapabilities::ReadWrite),
            ) => Outcome::Fail(e),
            (MkdirCall::Handle { args }, FsAnswer::Id(Ok(dirid))) => Outcome::Ask(
                MkdirCall::Attr { dirid, args },
            ),
            (MkdirCall::Handle { .. }, FsAnswer::Id(Err(stat))) => Outcome::Reply(
                lost_reply(xid, stat),
            ),
            (MkdirCall::Attr { dirid, args }, FsAnswer::Attr(Ok(attr))) => Outcome::Ask(
                MkdirCall::Make { dirid, args, before: pre_op_attr::of_getattr(Ok(attr)) },
            ),
            (MkdirCall::Attr { .. }, FsAnswer::Attr(Err(stat))) => Outcome::Reply(
                lost_reply(xid, stat),
            ),
            (MkdirCall::Make { dirid, before, .. }, FsAnswer::Created(made)) => Outcome::Ask(
                MkdirCall::After { dirid, made, before },
            ),
            (MkdirCall::After { made: Ok((id, obj_attr)), before, .. }, FsAnswer::Attr(attr)) =>
                Outcome::Ask(
                    MkdirCall::ObjHandle {
                        id,
                        attr: obj_attr,
                        wcc: wcc_data { before, after: post_op_attr::of_getattr(attr) },
                    },
                ),
            (MkdirCall::After { made: Err(stat), before, .. }, FsAnswer::Attr(attr)) =>
                Outcome::Reply(
                    wcc_reply(
                        xid,
                        stat,
                        wcc_data { before, after: post_op_attr::of_getattr(attr) },
                    ),
                ),
            (MkdirCall::ObjHandle { attr, wcc, .. }, FsAnswer::Handle(fh)) => Outcome::Reply(
                created_reply(xid, fh@, post_op_attr::attributes(attr), wcc),
            ),
            _ => Outcome::Unexpected,
        }
    }

    open spec fn encodable(self) -> bool {
        true
    }

    open spec fn as_call(self) -> NfsCall {
        NfsCall::Mkdir(self)
    }

    fn start(xid: u32, input: Input) -> (r: Step<MkdirCall>) {
        nfsproc3_mkdir(input)
    }

    fn request<'a>(&'a self, context: &'a CallContext) -> (r: FsRequest<'a>) {
        match self {
            MkdirCall::Caps { .. } => FsRequest::Capabilities,
            MkdirCall::Handle { args } => FsRequest::FhToId { handle: &args.dirops.dir },
            MkdirCall::Attr { dirid, .. } => FsRequest::Getattr { auth: &context.auth, id: *dirid },
            MkdirCall::Make { dirid, args, .. } => FsRequest::Mkdir {
                auth: &context.auth,
                dirid: *dirid,
                name: &args.dirops.name,
                attr: args.attributes,
            },
            MkdirCall::After { dirid, .. } => FsRequest::Getattr {
                auth: &context.auth,
                id: *dirid,
            },
            MkdirCall::ObjHandle { id, .. } => FsRequest::IdToFh { id: *id },
        }
    }

    fn resume(self, xid: u32, answer: FsAnswer) -> (r: Step<MkdirCall>) {
        match (self, answer) {
            (MkdirCall::Caps { .. }, FsAnswer::Capabilities(VFSCapabilities::ReadOnly)) =>
                Step::Reply(reply_lost(xid, nfsstat3::NFS3ERR_ROFS)),
            (
                MkdirCall::Caps { decoded: Ok(args) },
                FsAnswer::Capabilities(VFSCapabilities::ReadWrite),
            ) => Step::Ask(MkdirCall::Handle { args }),
            (
                MkdirCall::Caps { decoded: Err(e) },
                FsAnswer::Capabilities(VFSCapabilities::ReadWrite),
            ) => Step::Fail(e),
            (MkdirCall::Handle { args }, FsAnswer::Id(Ok(dirid))) => Step::Ask(
                MkdirCall::Attr { dirid, args },
            ),
            (MkdirCall::Handle { .. }, FsAnswer::Id(Err(stat))) => Step::Reply(
                reply_lost(xid, stat),
            ),
            (MkdirCall::Attr { dirid, args }, FsAnswer::Attr(Ok(attr))) => Step::Ask(
                MkdirCall::Make { dirid, args, before: pre_op_attr::from_getattr(&Ok(attr)) },
            ),
            (MkdirCall::Attr { .. }, FsAnswer::Attr(Err(stat))) => Step::Reply(
                reply_lost(xid, stat),
            ),
            (MkdirCall::Make { dirid, before, .. }, FsAnswer::Created(made)) => Step::Ask(
                MkdirCall::After { dirid, made, before },
            ),
            (MkdirCall::After { made: Ok((id, obj_attr)), before, .. }, FsAnswer::Attr(attr)) =>
                Step::Ask(
                    MkdirCall::ObjHandle {
                        id,
                        attr: obj_attr,
                        wcc: wcc_data { before, after: post_op_attr::from_getattr(&attr) },
                    },
                ),
            (MkdirCall::After { made: Err(stat), before, .. }, FsAnswer::Attr(attr)) => Step::Reply(
                reply_wcc(xid, stat, wcc_data { before, after: post_op_attr::from_getattr(&attr) }),
            ),
            (MkdirCall::ObjHandle { attr, wcc, .. }, FsAnswer::Handle(fh)) => Step::Reply(
                reply_created(xid, fh, post_op_attr::attributes(attr), wcc),
            ),
            _ => Step::Unexpected,
        }
    }

    fn into_call(self) -> (r: NfsCall) {
        NfsCall::Mkdir(self)
    }

    proof fn fitting_answer_is_expected(self, context: CallContext, xid: u32, answer: FsAnswer) {
    }

    proof fn answer_brings_reply_nearer(self, xid: u32, answer: FsAnswer) {
        reveal(nearer);
    }

    proof fn changes_at_most_once(self, context: CallContext, xid: u32, answer: FsAnswer) {
        reveal(is_settled);
    }

    proof fn asks_for_the_caller(self, context: CallContext) {
    }
}

// --------------------------------------------------------------------- SYMLINK

/// A SYMLINK call that is being served.
pub enum SymlinkCall {
    Caps { decoded: Result<SYMLINK3args, XdrError> },
    Handle { args: SYMLINK3args },
    Attr { dirid: fileid3, args: SYMLINK3args },
    Make { dirid: fileid3, args: SYMLINK3args, before: pre_op_attr },
    After { dirid: fileid3, made: Result<(fileid3, fattr3), nfsstat3>, before: pre_op_attr },
    ObjHandle { id: fileid3, attr: fattr3, wcc: wcc_data },
}

/// How SYMLINK starts on its encoded arguments. Whether they could be decoded
/// matters only once the file system has said that it can be written.
pub open spec fn symlink_starts(s: Seq<u8>, r: Step<SymlinkCall>) -> bool {
    r matches Step::Ask(SymlinkCall::Caps { decoded }) && match parse_SYMLINK3args(s) {
        Ok((v, _)) => decoded matches Ok(args) && args@ == v,
        Err(e) => decoded == Err::<SYMLINK3args, XdrError>(e),
    }
}

/// Starts SYMLINK.
pub fn nfsproc3_symlink(input: Input) -> (r: Step<SymlinkCall>)
    ensures
        symlink_starts(input@, r),
{
    let mut input = input;
    Step::Ask(SymlinkCall::Caps { decoded: SYMLINK3args::deserialize(&mut input) })
}

impl SymlinkCall {
    /// How many answers at most it takes after the next one.
    pub open spec fn remaining(self) -> nat {
        match self {
            SymlinkCall::Caps { .. } => 5,
            SymlinkCall::Handle { .. } => 4,
            SymlinkCall::Attr { .. } => 3,
            SymlinkCall::Make { .. } => 2,
            SymlinkCall::After { .. } => 1,
            SymlinkCall::ObjHandle { .. } => 0,
        }
    }

    /// It changes nothing any more.
    pub open spec fn settled(self) -> bool {
        self is After || self is ObjHandle
    }
}

impl Procedure for SymlinkCall {
    open spec fn starts(xid: u32, s: Seq<u8>, r: Step<SymlinkCall>) -> bool {
        symlink_starts(s, r)
    }

    open spec fn asks<'a>(&'a self, context: &'a CallContext) -> FsRequest<'a> {
        match self {
            SymlinkCall::Caps { .. } => FsRequest::Capabilities,
            SymlinkCall::Handle { args } => FsRequest::FhToId { handle: &args.dirops.dir },
            SymlinkCall::Attr { dirid, .. } => FsRequest::Getattr {
                auth: &context.auth,
                id: *dirid,
            },
            SymlinkCall::Make { dirid, args, .. } => FsRequest::Symlink {
                auth: &context.auth,
                dirid: *dirid,
                name: &args.dirops.name,
                target: &args.symlink.symlink_data,
                attr: args.symlink.symlink_attributes,
            },
            SymlinkCall::After { dirid, .. } => FsRequest::Getattr {
                auth: &context.auth,
                id: *dirid,
            },
            SymlinkCall::ObjHandle { id, .. } => FsRequest::IdToFh { id: *id },
        }
    }

    open spec fn next(self, xid: u32, answer: FsAnswer) -> Outcome<SymlinkCall> {
        match (self, answer) {
            (SymlinkCall::Caps { .. }, FsAnswer::Capabilities(VFSCapabilities::ReadOnly)) =>
                Outcome::Reply(lost_reply(xid, nfsstat3::NFS3ERR_ROFS)),
            (
                SymlinkCall::Caps { decoded: Ok(args) },
                FsAnswer::Capabilities(VFSCapabilities::ReadWrite),
            ) => Outcome::Ask(SymlinkCall::Handle { args }),
            (
                SymlinkCall::Caps { decoded: Err(e) },
                FsAnswer::Capabilities(VFSCapabilities::ReadWrite),
            ) => Outcome::Fail(e),
            (SymlinkCall::Handle { args }, FsAnswer::Id(Ok(dirid))) => Outcome::Ask(
                SymlinkCall::Attr { dirid, args },
            ),
            (SymlinkCall::Handle { .. }, FsAnswer::Id(Err(stat))) => Outcome::Reply(
                lost_reply(xid, stat),
            ),
            (SymlinkCall::Attr { dirid, args }, FsAnswer::Attr(Ok(attr))) => Outcome::Ask(
                SymlinkCall::Make { dirid, args, before: pre_op_attr::of_getattr(Ok(attr)) },
            ),
            (SymlinkCall::Attr { .. }, FsAnswer::Attr(Err(stat))) => Outcome::Reply(
                lost_reply(xid, stat),
            ),
            (SymlinkCall::Make { dirid, before, .. }, FsAnswer::Created(made)) => Outcome::Ask(
                SymlinkCall::After { dirid, made, before },
            ),
            (SymlinkCall::After { made: Ok((id, obj_attr)), before, .. }, FsAnswer::Attr(attr)) =>
                Outcome::Ask(
                    SymlinkCall::ObjHandle {
                        id,
                        attr: obj_attr,
                        wcc: wcc_data { before, after: post_op_attr::of_getattr(attr) },
                    },
                ),
            (SymlinkCall::After { made: Err(stat), before, .. }, FsAnswer::Attr(attr)) =>
                Outcome::Reply(
                    wcc_reply(
                        xid,
                        stat,
                        wcc_data { before, after: post_op_attr::of_getattr(attr) },
                    ),
                ),
            (SymlinkCall::ObjHandle { attr, wcc, .. }, FsAnswer::Handle(fh)) => Outcome::Reply(
                created_reply(xid, fh@, post_op_attr::attributes(attr), wcc),
            ),
            _ => Outcome::Unexpected,
        }
    }

    open spec fn encodable(self) -> bool {
        true
    }

    open spec fn as_call(self) -> NfsCall {
        NfsCall::Symlink(self)
    }

    fn start(xid: u32, input: Input) -> (r: Step<SymlinkCall>) {
        nfsproc3_symlink(input)
    }

    fn request<'a>(&'a self, context: &'a CallContext) -> (r: FsRequest<'a>) {
        match self {
            SymlinkCall::Caps { .. } => FsRequest::Capabilities,
            SymlinkCall::Handle { args } => FsRequest::FhToId { handle: &args.dirops.dir },
            SymlinkCall::Attr { dirid, .. } => FsRequest::Getattr {
                auth: &context.auth,
                id: *dirid,
            },
            SymlinkCall::Make { dirid, args, .. } => FsRequest::Symlink {
                auth: &context.auth,
                dirid: *dirid,
                name: &args.dirops.name,
                target: &args.symlink.symlink_data,
                attr: args.symlink.symlink_attributes,
            },
            SymlinkCall::After { dirid, .. } => FsRequest::Getattr {
                auth: &context.auth,
                id: *dirid,
            },
            SymlinkCall::ObjHandle { id, .. } => FsRequest::IdToFh { id: *id },
        }
    }

    fn resume(self, xid: u32, answer: FsAnswer) -> (r: Step<SymlinkCall>) {
        match (self, answer) {
            (SymlinkCall::Caps { .. }, FsAnswer::Capabilities(VFSCapabilities::ReadOnly)) =>
                Step::Reply(reply_lost(xid, nfsstat3::NFS3ERR_ROFS)),
            (
                SymlinkCall::Caps { decoded: Ok(args) },
                FsAnswer::Capabilities(VFSCapabilities::ReadWrite),
            ) => Step::Ask(SymlinkCall::Handle { args }),
            (
                SymlinkCall::Caps { decoded: Err(e) },
                FsAnswer::Capabilities(VFSCapabilities::ReadWrite),
            ) => Step::Fail(e),
            (SymlinkCall::Handle { args }, FsAnswer::Id(Ok(dirid))) => Step::Ask(
                SymlinkCall::Attr { dirid, args },
            ),
            (SymlinkCall::Handle { .. }, FsAnswer::Id(Err(stat))) => Step::Reply(
                reply_lost(xid, stat),
            ),
            (SymlinkCall::Attr { dirid, args }, FsAnswer::Attr(Ok(attr))) => Step::Ask(
                SymlinkCall::Make { dirid, args, before: pre_op_attr::from_getattr(&Ok(attr)) },
            ),
            (SymlinkCall::Attr { .. }, FsAnswer::Attr(Err(stat))) => Step::Reply(
                reply_lost(xid, stat),
            ),
            (SymlinkCall::Make { dirid, before, .. }, FsAnswer::Created(made)) => Step::Ask(
                SymlinkCall::After { dirid, made, before },
            ),
            (SymlinkCall::After { made: Ok((id, obj_attr)), before, .. }, FsAnswer::Attr(attr)) =>
                Step::Ask(
                    SymlinkCall::ObjHandle {
                        id,
                        attr: obj_attr,
                        wcc: wcc_data { before, after: post_op_attr::from_getattr(&attr) },
                    },
                ),
            (SymlinkCall::After { made: Err(stat), before, .. }, FsAnswer::Attr(attr)) =>
                Step::Reply(
                    reply_wcc(
                        xid,
                        stat,
                        wcc_data { before, after: post_op_attr::from_getattr(&attr) },
                    ),
                ),
            (SymlinkCall::ObjHandle { attr, wcc, .. }, FsAnswer::Handle(fh)) => Step::Reply(
                reply_created(xid, fh, post_op_attr::attributes(attr), wcc),
            ),
            _ => Step::Unexpected,
        }
    }

    fn into_call(self) -> (r: NfsCall) {
        NfsCall::Symlink(self)
    }

    proof fn fitting_answer_is_expected(self, context: CallContext, xid: u32, answer: FsAnswer) {
    }

    proof fn answer_brings_reply_nearer(self, xid: u32, answer: FsAnswer) {
        reveal(nearer);
    }

    proof fn changes_at_most_once(self, context: CallContext, xid: u32, answer: FsAnswer) {
        reveal(is_settled);
    }

    proof fn asks_for_the_caller(self, context: CallContext) {
    }
}

// ----------------------------------------------------------------------- MKNOD

/// A MKNOD call that is being served.
pub enum MknodCall {
    Handle { args: MKNOD3args },
    Attr { dirid: fileid3, args: MKNOD3args },
    Make {
        dirid: fileid3,
        name: filename3,
        ftype: ftype3,
        attributes: sattr3,
        spec: Option<specdata3>,
        before: pre_op_attr,
    },
    ObjHandle { dirid: fileid3, id: fileid3, attr: fattr3, before: pre_op_attr },
    After { dirid: fileid3, handle: nfs_fh3, attr: fattr3, before: pre_op_attr },
    Failed { dirid: fileid3, stat: nfsstat3, before: pre_op_attr },
}

/// How MKNOD starts on its encoded arguments.
pub open spec fn mknod_starts(s: Seq<u8>, r: Step<MknodCall>) -> bool {
    match parse_MKNOD3args(s) {
        Ok((v, _)) => r matches Step::Ask(MknodCall::Handle { args }) && args@ == v,
        Err(e) => r == Step::<MknodCall>::Fail(e),
    }
}

/// Starts MKNOD.
pub fn nfsproc3_mknod(input: Input) -> (r: Step<MknodCall>)
    ensures
        mknod_starts(input@, r),
{
    let mut input = input;
    match MKNOD3args::deserialize(&mut input) {
        Ok(args) => Step::Ask(MknodCall::Handle { args }),
        Err(e) => Step::Fail(e),
    }
}

impl MknodCall {
    /// How many answers at most it takes after the next one.
    pub open spec fn remaining(self) -> nat {
        match self {
            MknodCall::Handle { .. } => 4,
            MknodCall::Attr { .. } => 3,
            MknodCall::Make { .. } => 2,
            MknodCall::ObjHandle { .. } => 1,
            MknodCall::After { .. } => 0,
            MknodCall::Failed { .. } => 0,
        }
    }

    /// It changes nothing any more.
    pub open spec fn settled(self) -> bool {
        self is ObjHandle || self is After || self is Failed
    }

    /// The handle of the new object, once there is one, can be encoded.
    pub open spec fn handle_fits(self) -> bool {
        self matches MknodCall::After { handle, .. } ==> handle@.len() <= u32::MAX
    }
}

impl Procedure for MknodCall {
    open spec fn starts(xid: u32, s: Seq<u8>, r: Step<MknodCall>) -> bool {
        mknod_starts(s, r)
    }

    open spec fn asks<'a>(&'a self, context: &'a CallContext) -> FsRequest<'a> {
        match self {
            MknodCall::Handle { args } => FsRequest::FhToId { handle: &args.where_.dir },
            MknodCall::Attr { dirid, .. } => FsRequest::Getattr { auth: &context.auth, id: *dirid },
            MknodCall::Make { dirid, name, ftype, attributes, spec, .. } => FsRequest::Mknod {
                auth: &context.auth,
                dirid: *dirid,
                name,
                ftype: *ftype,
                attr: *attributes,
                spec: *spec,
            },
            MknodCall::ObjHandle { id, .. } => FsRequest::IdToFh { id: *id },
            MknodCall::After { dirid, .. } => FsRequest::Getattr {
                auth: &context.auth,
                id: *dirid,
            },
            MknodCall::Failed { dirid, .. } => FsRequest::Getattr {
                auth: &context.auth,
                id: *dirid,
            },
        }
    }

    open spec fn next(self, xid: u32, answer: FsAnswer) -> Outcome<MknodCall> {
        match (self, answer) {
            (MknodCall::Handle { args }, FsAnswer::Id(Ok(dirid))) => Outcome::Ask(
                MknodCall::Attr { dirid, args },
            ),
            (MknodCall::Handle { .. }, FsAnswer::Id(Err(_))) => Outcome::Reply(
                lost_reply(xid, nfsstat3::NFS3ERR_STALE),
            ),
            (MknodCall::Attr { dirid, args }, FsAnswer::Attr(attr)) => {
                let before = pre_op_attr::of_getattr(attr);
                match args.what.special() {
                    Some((ftype, attributes, spec)) => Outcome::Ask(
                        MknodCall::Make {
                            dirid,
                            name: args.where_.name,
                            ftype,
                            attributes,
                            spec,
                            before,
                        },
                    ),
                    None => Outcome::Ask(
                        MknodCall::Failed { dirid, stat: nfsstat3::NFS3ERR_BADTYPE, before },
                    ),
                }
            },
            (MknodCall::Make { dirid, before, .. }, FsAnswer::Created(Ok((id, attr)))) =>
                Outcome::Ask(MknodCall::ObjHandle { dirid, id, attr, before }),
            (MknodCall::Make { dirid, before, .. }, FsAnswer::Created(Err(stat))) => Outcome::Ask(
                MknodCall::Failed { dirid, stat, before },
            ),
            (MknodCall::ObjHandle { dirid, attr, before, .. }, FsAnswer::Handle(fh)) =>
                Outcome::Ask(MknodCall::After { dirid, handle: fh, attr, before }),
            (MknodCall::After { handle: fh, attr: obj_attr, before, .. }, FsAnswer::Attr(attr)) =>
                Outcome::Reply(
                    created_reply(
                        xid,
                        fh@,
                        post_op_attr::attributes(obj_attr),
                        wcc_data { before, after: post_op_attr::of_getattr(attr) },
                    ),
                ),
            (MknodCall::Failed { stat, before, .. }, FsAnswer::Attr(attr)) => Outcome::Reply(
                wcc_reply(xid, stat, wcc_data { before, after: post_op_attr::of_getattr(attr) }),
            ),
            _ => Outcome::Unexpected,
        }
    }

    open spec fn encodable(self) -> bool {
        self.handle_fits()
    }

    open spec fn as_call(self) -> NfsCall {
        NfsCall::Mknod(self)
    }

    fn start(xid: u32, input: Input) -> (r: Step<MknodCall>) {
        nfsproc3_mknod(input)
    }

    fn request<'a>(&'a self, context: &'a CallContext) -> (r: FsRequest<'a>) {
        match self {
            MknodCall::Handle { args } => FsRequest::FhToId { handle: &args.where_.dir },
            MknodCall::Attr { dirid, .. } => FsRequest::Getattr { auth: &context.auth, id: *dirid },
            MknodCall::Make { dirid, name, ftype, attributes, spec, .. } => FsRequest::Mknod {
                auth: &context.auth,
                dirid: *dirid,
                name,
                ftype: *ftype,
                attr: *attributes,
                spec: *spec,
            },
            MknodCall::ObjHandle { id, .. } => FsRequest::IdToFh { id: *id },
            MknodCall::After { dirid, .. } => FsRequest::Getattr {
                auth: &context.auth,
                id: *dirid,
            },
            MknodCall::Failed { dirid, .. } => FsRequest::Getattr {
                auth: &context.auth,
                id: *dirid,
            },
        }
    }

    fn resume(self, xid: u32, answer: FsAnswer) -> (r: Step<MknodCall>) {
        match (self, answer) {
            (MknodCall::Handle { args }, FsAnswer::Id(Ok(dirid))) => Step::Ask(
                MknodCall::Attr { dirid, args },
            ),
            (MknodCall::Handle { .. }, FsAnswer::Id(Err(_))) => Step::Reply(
                reply_lost(xid, nfsstat3::NFS3ERR_STALE),
            ),
            (MknodCall::Attr { dirid, args }, FsAnswer::Attr(attr)) => {
                let before = pre_op_attr::from_getattr(&attr);
                match args.what.to_special() {
                    Some((ftype, attributes, spec)) => Step::Ask(
                        MknodCall::Make {
                            dirid,
                            name: args.where_.name,
                            ftype,
                            attributes,
                            spec,
                            before,
                        },
                    ),
                    None => Step::Ask(
                        MknodCall::Failed { dirid, stat: nfsstat3::NFS3ERR_BADTYPE, before },
                    ),
                }
            },
            (MknodCall::Make { dirid, before, .. }, FsAnswer::Created(Ok((id, attr)))) => Step::Ask(
                MknodCall::ObjHandle { dirid, id, attr, before },
            ),
            (MknodCall::Make { dirid, before, .. }, FsAnswer::Created(Err(stat))) => Step::Ask(
                MknodCall::Failed { dirid, stat, before },
            ),
            (MknodCall::ObjHandle { dirid, attr, before, .. }, FsAnswer::Handle(fh)) => Step::Ask(
                MknodCall::After { dirid, handle: fh, attr, before },
            ),
            (MknodCall::After { handle: fh, attr: obj_attr, before, .. }, FsAnswer::Attr(attr)) =>
                Step::Reply(
                    reply_created(
                        xid,
                        fh,
                        post_op_attr::attributes(obj_attr),
                        wcc_data { before, after: post_op_attr::from_getattr(&attr) },
                    ),
                ),
            (MknodCall::Failed { stat, before, .. }, FsAnswer::Attr(attr)) => Step::Reply(
                reply_wcc(xid, stat, wcc_data { before, after: post_op_attr::from_getattr(&attr) }),
            ),
            _ => Step::Unexpected,
        }
    }

    fn into_call(self) -> (r: NfsCall) {
        NfsCall::Mknod(self)
    }

    proof fn fitting_answer_is_expected(self, context: CallContext, xid: u32, answer: FsAnswer) {
    }

    proof fn answer_brings_reply_nearer(self, xid: u32, answer: FsAnswer) {
        reveal(nearer);
    }

    proof fn changes_at_most_once(self, context: CallContext, xid: u32, answer: FsAnswer) {
        reveal(is_settled);
    }

    proof fn asks_for_the_caller(self, context: CallContext) {
    }
}

} // verus!
