//! Procedures that look at one object: GETATTR, LOOKUP, ACCESS, READ, READLINK.
use super::dispatch::{is_settled, nearer, NfsCall, Procedure};
use super::{attr_reply, reply_attr, reply_stat, stat_reply, Outcome, Step};
use crate::nfs::{fileid3, filename3, nfs_fh3, nfsstat3, post_op_attr};
use crate::nfs_args::{diropargs3, parse_READ3args, parse_diropargs3, READ3args};
use crate::vfs::{CallContext, FsAnswer, FsRequest, VFSCapabilities};
use crate::xdr::{
    opaque_round_trip, parse_opaque, parse_u32, write_bool, write_opaque, write_u32, xdr_bool,
    xdr_opaque, xdr_u32, Input, Parsed, XdrError,
};
use vstd::prelude::*;

verus! {

// ------------------------------------------------------------------ GETATTR

/// A GETATTR call that is being served.
pub enum GetattrCall {
    Handle { handle: nfs_fh3 },
    Attr { id: fileid3 },
}

/// How GETATTR starts on its encoded arguments.
pub open spec fn getattr_starts(s: Seq<u8>, r: Step<GetattrCall>) -> bool {
    match parse_opaque(s) {
        Ok((h, _)) => r matches Step::Ask(GetattrCall::Handle { handle }) && handle@ == h,
        Err(e) => r == Step::<GetattrCall>::Fail(e),
    }
}

/// Starts GETATTR.
pub fn nfsproc3_getattr(input: Input) -> (r: Step<GetattrCall>)
    ensures
        getattr_starts(input@, r),
{
    let mut input = input;
    match nfs_fh3::deserialize(&mut input) {
        Ok(handle) => Step::Ask(GetattrCall::Handle { handle }),
        Err(e) => Step::Fail(e),
    }
}

impl GetattrCall {
    /// How many answers at most it takes after the next one.
    pub open spec fn remaining(self) -> nat {
        match self {
            GetattrCall::Handle { .. } => 1,
            GetattrCall::Attr { .. } => 0,
        }
    }

    /// It changes nothing any more.
    pub open spec fn settled(self) -> bool {
        true
    }
}

impl Procedure for GetattrCall {
    open spec fn starts(xid: u32, s: Seq<u8>, r: Step<GetattrCall>) -> bool {
        getattr_starts(s, r)
    }

    open spec fn asks<'a>(&'a self, context: &'a CallContext) -> FsRequest<'a> {
        match self {
            GetattrCall::Handle { handle } => FsRequest::FhToId { handle },
            GetattrCall::Attr { id } => FsRequest::Getattr { auth: &context.auth, id: *id },
        }
    }

    open spec fn next(self, xid: u32, answer: FsAnswer) -> Outcome<GetattrCall> {
        match (self, answer) {
            (GetattrCall::Handle { .. }, FsAnswer::Id(Ok(id))) => Outcome::Ask(
                GetattrCall::Attr { id },
            ),
            (GetattrCall::Handle { .. }, FsAnswer::Id(Err(stat))) => Outcome::Reply(
                stat_reply(xid, stat),
            ),
            (GetattrCall::Attr { .. }, FsAnswer::Attr(Ok(attr))) => Outcome::Reply(
                stat_reply(xid, nfsstat3::NFS3_OK) + attr.encoding(),
            ),
            (GetattrCall::Attr { .. }, FsAnswer::Attr(Err(stat))) => Outcome::Reply(
                stat_reply(xid, stat),
            ),
            _ => Outcome::Unexpected,
        }
    }

    open spec fn encodable(self) -> bool {
        true
    }

    open spec fn as_call(self) -> NfsCall {
        NfsCall::Getattr(self)
    }

    fn start(xid: u32, input: Input) -> (r: Step<GetattrCall>) {
        nfsproc3_getattr(input)
    }

    fn request<'a>(&'a self, context: &'a CallContext) -> (r: FsRequest<'a>) {
        match self {
            GetattrCall::Handle { handle } => FsRequest::FhToId { handle },
            GetattrCall::Attr { id } => FsRequest::Getattr { auth: &context.auth, id: *id },
        }
    }

    fn resume(self, xid: u32, answer: FsAnswer) -> (r: Step<GetattrCall>) {
        match (self, answer) {
            (GetattrCall::Handle { .. }, FsAnswer::Id(Ok(id))) => Step::Ask(
                GetattrCall::Attr { id },
            ),
            (GetattrCall::Handle { .. }, FsAnswer::Id(Err(stat))) => Step::Reply(
                reply_stat(xid, stat),
            ),
            (GetattrCall::Attr { .. }, FsAnswer::Attr(Ok(attr))) => {
                let mut out = reply_stat(xid, nfsstat3::NFS3_OK);
                attr.serialize(&mut out);
                Step::Reply(out)
            },
            (GetattrCall::Attr { .. }, FsAnswer::Attr(Err(stat))) => Step::Reply(
                reply_stat(xid, stat),
            ),
            _ => Step::Unexpected,
        }
    }

    fn into_call(self) -> (r: NfsCall) {
        NfsCall::Getattr(self)
    }

    proof fn fitting_answer_is_expected(self, context: CallContext, xid: u32, answer: FsAnswer) {
    }

    proof fn answer_brings_reply_nearer(self, xid: u32, answer: FsAnswer) {
        reveal(nearer);
    }

    proof fn changes_at_most_once(self, context: CallContext, xid: u32, answer: FsAnswer) {
        reveal(is_settled);
    }

    proof fn asks_for_the_caller(self, context: CallContext) {
    }
}

// ------------------------------------------------------------------- LOOKUP

/// A LOOKUP call that is being served.
pub enum LookupCall {
    Handle { args: diropargs3 },
    DirAttr { dirid: fileid3, name: filename3 },
    Find { dirid: fileid3, name: filename3, dir_attr: post_op_attr },
    ObjAttr { id: fileid3, dir_attr: post_op_attr },
    ObjHandle { id: fileid3, obj_attr: post_op_attr, dir_attr: post_op_attr },
}

/// How LOOKUP starts on its encoded arguments.
pub open spec fn lookup_starts(s: Seq<u8>, r: Step<LookupCall>) -> bool {
    match parse_diropargs3(s) {
        Ok((v, _)) => r matches Step::Ask(LookupCall::Handle { args }) && args@ == v,
        Err(e) => r == Step::<LookupCall>::Fail(e),
    }
}

/// Starts LOOKUP.
pub fn nfsproc3_lookup(input: Input) -> (r: Step<LookupCall>)
    ensures
        lookup_starts(input@, r),
{
    let mut input = input;
    match diropargs3::deserialize(&mut input) {
        Ok(args) => Step::Ask(LookupCall::Handle { args }),
        Err(e) => Step::Fail(e),
    }
}

/// The reply of a LOOKUP that found the name.
pub open spec fn lookup_reply(
    xid: u32,
    handle: Seq<u8>,
    obj_attr: post_op_attr,
    dir_attr: post_op_attr,
) -> Seq<u8> {
    stat_reply(xid, nfsstat3::NFS3_OK) + xdr_opaque(handle) + obj_attr.encoding()
        + dir_attr.encoding()
}

impl LookupCall {
    /// How many answers at most it takes after the next one.
    pub open spec fn remaining(self) -> nat {
        match self {
            LookupCall::Handle { .. } => 4,
            LookupCall::DirAttr { .. } => 3,
            LookupCall::Find { .. } => 2,
            LookupCall::ObjAttr { .. } => 1,
            LookupCall::ObjHandle { .. } => 0,
        }
    }

    /// It changes nothing any more.
    pub open spec fn settled(self) -> bool {
        true
    }
}

impl Procedure for LookupCall {
    open spec fn starts(xid: u32, s: Seq<u8>, r: Step<LookupCall>) -> bool {
        lookup_starts(s, r)
    }

    open spec fn asks<'a>(&'a self, context: &'a CallContext) -> FsRequest<'a> {
        match self {
            LookupCall::Handle { args } => FsRequest::FhToId { handle: &args.dir },
            LookupCall::DirAttr { dirid, .. } => FsRequest::Getattr {
                auth: &context.auth,
                id: *dirid,
            },
            LookupCall::Find { dirid, name, .. } => FsRequest::Lookup {
                auth: &context.auth,
                dirid: *dirid,
                name,
            },
            LookupCall::ObjAttr { id, .. } => FsRequest::Getattr { auth: &context.auth, id: *id },
            LookupCall::ObjHandle { id, .. } => FsRequest::IdToFh { id: *id },
        }
    }

    open spec fn next(self, xid: u32, answer: FsAnswer) -> Outcome<LookupCall> {
        match (self, answer) {
            (LookupCall::Handle { args }, FsAnswer::Id(Ok(dirid))) => Outcome::Ask(
                LookupCall::DirAttr { dirid, name: args.name },
            ),
            (LookupCall::Handle { .. }, FsAnswer::Id(Err(stat))) => Outcome::Reply(
                attr_reply(xid, stat, post_op_attr::Void),
            ),
            (LookupCall::DirAttr { dirid, name }, FsAnswer::Attr(attr)) => Outcome::Ask(
                LookupCall::Find { dirid, name, dir_attr: post_op_attr::of_getattr(attr) },
            ),
            (LookupCall::Find { dir_attr, .. }, FsAnswer::Id(Ok(id))) => Outcome::Ask(
                LookupCall::ObjAttr { id, dir_attr },
            ),
            (LookupCall::Find { dir_attr, .. }, FsAnswer::Id(Err(stat))) => Outcome::Reply(
                attr_reply(xid, stat, dir_attr),
            ),
            (LookupCall::ObjAttr { id, dir_attr }, FsAnswer::Attr(attr)) => Outcome::Ask(
                LookupCall::ObjHandle { id, obj_attr: post_op_attr::of_getattr(attr), dir_attr },
            ),
            (LookupCall::ObjHandle { obj_attr, dir_attr, .. }, FsAnswer::Handle(fh)) =>
                Outcome::Reply(lookup_reply(xid, fh@, obj_attr, dir_attr)),
            _ => Outcome::Unexpected,
        }
    }

    open spec fn encodable(self) -> bool {
        true
    }

    open spec fn as_call(self) -> NfsCall {
        NfsCall::Lookup(self)
    }

    fn start(xid: u32, input: Input) -> (r: Step<LookupCall>) {
        nfsproc3_lookup(input)
    }

    fn request<'a>(&'a self, context: &'a CallContext) -> (r: FsRequest<'a>) {
        match self {
            LookupCall::Handle { args } => FsRequest::FhToId { handle: &args.dir },
            LookupCall::DirAttr { dirid, .. } => FsRequest::Getattr {
                auth: &context.auth,
                id: *dirid,
            },
            LookupCall::Find { dirid, name, .. } => FsRequest::Lookup {
                auth: &context.auth,
                dirid: *dirid,
                name,
            },
            LookupCall::ObjAttr { id, .. } => FsRequest::Getattr { auth: &context.auth, id: *id },
            LookupCall::ObjHandle { id, .. } => FsRequest::IdToFh { id: *id },
        }
    }

    fn resume(self, xid: u32, answer: FsAnswer) -> (r: Step<LookupCall>) {
        match (self, answer) {
            (LookupCall::Handle { args }, FsAnswer::Id(Ok(dirid))) => Step::Ask(
                LookupCall::DirAttr { dirid, name: args.name },
            ),
            (LookupCall::Handle { .. }, FsAnswer::Id(Err(stat))) => Step::Reply(
                reply_attr(xid, stat, post_op_attr::Void),
            ),
            (LookupCall::DirAttr { dirid, name }, FsAnswer::Attr(attr)) => Step::Ask(
                LookupCall::Find { dirid, name, dir_attr: post_op_attr::from_getattr(&attr) },
            ),
            (LookupCall::Find { dir_attr, .. }, FsAnswer::Id(Ok(id))) => Step::Ask(
                LookupCall::ObjAttr { id, dir_attr },
            ),
            (LookupCall::Find { dir_attr, .. }, FsAnswer::Id(Err(stat))) => Step::Reply(
                reply_attr(xid, stat, dir_attr),
            ),
            (LookupCall::ObjAttr { id, dir_attr }, FsAnswer::Attr(attr)) => Step::Ask(
                LookupCall::ObjHandle { id, obj_attr: post_op_attr::from_getattr(&attr), dir_attr },
            ),
            (LookupCall::ObjHandle { obj_attr, dir_attr, .. }, FsAnswer::Handle(fh)) => {
                let mut out = reply_stat(xid, nfsstat3::NFS3_OK);
                fh.serialize(&mut out);
                obj_attr.serialize(&mut out);
                dir_attr.serialize(&mut out);
                Step::Reply(out)
            },
            _ => Step::Unexpected,
        }
    }

    fn into_call(self) -> (r: NfsCall) {
        NfsCall::Lookup(self)
    }

    proof fn fitting_answer_is_expected(self, context: CallContext, xid: u32, answer: FsAnswer) {
    }

    proof fn answer_brings_reply_nearer(self, xid: u32, answer: FsAnswer) {
        reveal(nearer);
    }

    proof fn changes_at_most_once(self, context: CallContext, xid: u32, answer: FsAnswer) {
        reveal(is_settled);
    }

    proof fn asks_for_the_caller(self, context: CallContext) {
    }
}

// ------------------------------------------------------------------- ACCESS

pub const ACCESS3_READ: u32 = 0x0001;

pub const ACCESS3_LOOKUP: u32 = 0x0002;

pub const ACCESS3_MODIFY: u32 = 0x0004;

pub const ACCESS3_EXTEND: u32 = 0x0008;

pub const ACCESS3_DELETE: u32 = 0x0010;

pub const ACCESS3_EXECUTE: u32 = 0x0020;

/// An ACCESS call that is being served.
pub enum AccessCall {
    Handle { handle: nfs_fh3, access: u32 },
    Attr { id: fileid3, access: u32 },
    Caps { attr: post_op_attr, access: u32 },
}

pub open spec fn parse_access(s: Seq<u8>) -> Parsed<(Seq<u8>, u32)> {
    match parse_opaque(s) {
        Err(e) => Err(e),
        Ok((handle, s)) => match parse_u32(s) {
            Err(e) => Err(e),
            Ok((access, s)) => Ok(((handle, access), s)),
        },
    }
}

/// How ACCESS starts on its encoded arguments.
pub open spec fn access_starts(s: Seq<u8>, r: Step<AccessCall>) -> bool {
    match parse_access(s) {
        Ok((v, _)) => r matches Step::Ask(AccessCall::Handle { handle, access }) && handle@
            == v.0 && access == v.1,
        Err(e) => r == Step::<AccessCall>::Fail(e),
    }
}

/// Starts ACCESS.
pub fn nfsproc3_access(input: Input) -> (r: Step<AccessCall>)
    ensures
        access_starts(input@, r),
{
    let mut input = input;
    match nfs_fh3::deserialize(&mut input) {
        Ok(handle) => match input.read_u32() {
            Ok(access) => Step::Ask(AccessCall::Handle { handle, access }),
            Err(e) => Step::Fail(e),
        },
        Err(e) => Step::Fail(e),
    }
}

/// The access that is granted of the one asked for: all of it, or only reading
/// and looking up where the file system cannot be written.
pub open spec fn granted(capabilities: VFSCapabilities, access: u32) -> u32 {
    match capabilities {
        VFSCapabilities::ReadWrite => access,
        VFSCapabilities::ReadOnly => access & (ACCESS3_READ | ACCESS3_LOOKUP),
    }
}

impl AccessCall {
    /// How many answers at most it takes after the next one.
    pub open spec fn remaining(self) -> nat {
        match self {
            AccessCall::Handle { .. } => 2,
            AccessCall::Attr { .. } => 1,
            AccessCall::Caps { .. } => 0,
        }
    }

    /// It changes nothing any more.
    pub open spec fn settled(self) -> bool {
        true
    }
}

impl Procedure for AccessCall {
    open spec fn starts(xid: u32, s: Seq<u8>, r: Step<AccessCall>) -> bool {
        access_starts(s, r)
    }

    open spec fn asks<'a>(&'a self, context: &'a CallContext) -> FsRequest<'a> {
        match self {
            AccessCall::Handle { handle, .. } => FsRequest::FhToId { handle },
            AccessCall::Attr { id, .. } => FsRequest::Getattr { auth: &context.auth, id: *id },
            AccessCall::Caps { .. } => FsRequest::Capabilities,
        }
    }

    open spec fn next(self, xid: u32, answer: FsAnswer) -> Outcome<AccessCall> {
        match (self, answer) {
            (AccessCall::Handle { access, .. }, FsAnswer::Id(Ok(id))) => Outcome::Ask(
                AccessCall::Attr { id, access },
            ),
            (AccessCall::Handle { .. }, FsAnswer::Id(Err(stat))) => Outcome::Reply(
                attr_reply(xid, stat, post_op_attr::Void),
            ),
            (AccessCall::Attr { access, .. }, FsAnswer::Attr(attr)) => Outcome::Ask(
                AccessCall::Caps { attr: post_op_attr::of_getattr(attr), access },
            ),
            (AccessCall::Caps { attr, access }, FsAnswer::Capabilities(c)) => Outcome::Reply(
                attr_reply(xid, nfsstat3::NFS3_OK, attr) + xdr_u32(granted(c, access)),
            ),
            _ => Outcome::Unexpected,
        }
    }

    open spec fn encodable(self) -> bool {
        true
    }

    open spec fn as_call(self) -> NfsCall {
        NfsCall::Access(self)
    }

    fn start(xid: u32, input: Input) -> (r: Step<AccessCall>) {
        nfsproc3_access(input)
    }

    fn request<'a>(&'a self, context: &'a CallContext) -> (r: FsRequest<'a>) {
        match self {
            AccessCall::Handle { handle, .. } => FsRequest::FhToId { handle },
            AccessCall::Attr { id, .. } => FsRequest::Getattr { auth: &context.auth, id: *id },
            AccessCall::Caps { .. } => FsRequest::Capabilities,
        }
    }

    fn resume(self, xid: u32, answer: FsAnswer) -> (r: Step<AccessCall>) {
        match (self, answer) {
            (AccessCall::Handle { access, .. }, FsAnswer::Id(Ok(id))) => Step::Ask(
                AccessCall::Attr { id, access },
            ),
            (AccessCall::Handle { .. }, FsAnswer::Id(Err(stat))) => Step::Reply(
                reply_attr(xid, stat, post_op_attr::Void),
            ),
            (AccessCall::Attr { access, .. }, FsAnswer::Attr(attr)) => Step::Ask(
                AccessCall::Caps { attr: post_op_attr::from_getattr(&attr), access },
            ),
            (AccessCall::Caps { attr, access }, FsAnswer::Capabilities(c)) => {
                let access: u32 = match c {
                    VFSCapabilities::ReadWrite => access,
                    VFSCapabilities::ReadOnly => access & (ACCESS3_READ | ACCESS3_LOOKUP),
                };
                let mut out = reply_attr(xid, nfsstat3::NFS3_OK, attr);
                write_u32(&mut out, access);
                Step::Reply(out)
            },
            _ => Step::Unexpected,
        }
    }

    fn into_call(self) -> (r: NfsCall) {
        NfsCall::Access(self)
    }

    proof fn fitting_answer_is_expected(self, context: CallContext, xid: u32, answer: FsAnswer) {
    }

    proof fn answer_brings_reply_nearer(self, xid: u32, answer: FsAnswer) {
        reveal(nearer);
    }

    proof fn changes_at_most_once(self, context: CallContext, xid: u32, answer: FsAnswer) {
        reveal(is_settled);
    }

    proof fn asks_for_the_caller(self, context: CallContext) {
    }
}

/// On a file system that cannot be written, no right to change anything is
/// granted, and none that was not asked for.
pub proof fn lemma_read_only_access(access: u32)
    ensures
        granted(VFSCapabilities::ReadOnly, access) & (ACCESS3_MODIFY | ACCESS3_EXTEND
            | ACCESS3_DELETE) == 0,
        granted(VFSCapabilities::ReadOnly, access) & access == granted(
            VFSCapabilities::ReadOnly,
            access,
        ),
{
    assert((access & (ACCESS3_READ | ACCESS3_LOOKUP)) & (ACCESS3_MODIFY | ACCESS3_EXTEND
        | ACCESS3_DELETE) == 0) by (bit_vector);
    assert((access & (ACCESS3_READ | ACCESS3_LOOKUP)) & access == access & (ACCESS3_READ
        | ACCESS3_LOOKUP)) by (bit_vector);
}

// --------------------------------------------------------------------- READ

/// The most that one READ or WRITE moves.
pub const MAX_NFS_IO_BYTES: u32 = 1048576;

/// A READ call that is being served.
pub enum ReadCall {
    Handle { args: READ3args },
    Attr { id: fileid3, offset: u64, count: u32 },
    Data { id: fileid3, offset: u64, count: u32, attr: post_op_attr },
}

/// How READ starts on its encoded arguments. A count that is too large is refused at once.
pub open spec fn read_starts(xid: u32, s: Seq<u8>, r: Step<ReadCall>) -> bool {
    match parse_READ3args(s) {
        Ok((v, _)) => if v.2 > MAX_NFS_IO_BYTES {
            r@ == Outcome::<ReadCall>::Reply(
                attr_reply(xid, nfsstat3::NFS3ERR_INVAL, post_op_attr::Void),
            )
        } else {
            r matches Step::Ask(ReadCall::Handle { args }) && args@ == v
        },
        Err(e) => r == Step::<ReadCall>::Fail(e),
    }
}

/// Starts READ.
pub fn nfsproc3_read(xid: u32, input: Input) -> (r: Step<ReadCall>)
    ensures
        read_starts(xid, input@, r),
{
    let mut input = input;
    match READ3args::deserialize(&mut input) {
        Ok(args) => if args.count > MAX_NFS_IO_BYTES {
            Step::Reply(reply_attr(xid, nfsstat3::NFS3ERR_INVAL, post_op_attr::Void))
        } else {
            Step::Ask(ReadCall::Handle { args })
        },
        Err(e) => Step::Fail(e),
    }
}

/// The reply of a READ: the attributes, the number of bytes, whether the end of
/// the file was reached, and the bytes.
pub open spec fn read_reply(xid: u32, attr: post_op_attr, bytes: Seq<u8>, eof: bool) -> Seq<u8> {
    attr_reply(xid, nfsstat3::NFS3_OK, attr) + xdr_u32(bytes.len() as u32) + xdr_bool(eof)
        + xdr_opaque(bytes)
}

impl ReadCall {
    /// How many answers at most it takes after the next one.
    pub open spec fn remaining(self) -> nat {
        match self {
            ReadCall::Handle { .. } => 2,
            ReadCall::Attr { .. } => 1,
            ReadCall::Data { .. } => 0,
        }
    }

    /// It changes nothing any more.
    pub open spec fn settled(self) -> bool {
        true
    }
}

impl Procedure for ReadCall {
    open spec fn starts(xid: u32, s: Seq<u8>, r: Step<ReadCall>) -> bool {
        read_starts(xid, s, r)
    }

    open spec fn asks<'a>(&'a self, context: &'a CallContext) -> FsRequest<'a> {
        match self {
            ReadCall::Handle { args } => FsRequest::FhToId { handle: &args.file },
            ReadCall::Attr { id, .. } => FsRequest::Getattr { auth: &context.auth, id: *id },
            ReadCall::Data { id, offset, count, .. } => FsRequest::Read {
                auth: &context.auth,
                id: *id,
                offset: *offset,
                count: *count,
            },
        }
    }

    open spec fn next(self, xid: u32, answer: FsAnswer) -> Outcome<ReadCall> {
        match (self, answer) {
            (ReadCall::Handle { args }, FsAnswer::Id(Ok(id))) => Outcome::Ask(
                ReadCall::Attr { id, offset: args.offset, count: args.count },
            ),
            (ReadCall::Handle { .. }, FsAnswer::Id(Err(stat))) => Outcome::Reply(
                attr_reply(xid, stat, post_op_attr::Void),
            ),
            (ReadCall::Attr { id, offset, count }, FsAnswer::Attr(attr)) => Outcome::Ask(
                ReadCall::Data { id, offset, count, attr: post_op_attr::of_getattr(attr) },
            ),
            (ReadCall::Data { attr, .. }, FsAnswer::Bytes(Ok((bytes, eof)))) => Outcome::Reply(
                read_reply(xid, attr, bytes@, eof),
            ),
            (ReadCall::Data { attr, .. }, FsAnswer::Bytes(Err(stat))) => Outcome::Reply(
                attr_reply(xid, stat, attr),
            ),
            _ => Outcome::Unexpected,
        }
    }

    open spec fn encodable(self) -> bool {
        true
    }

    open spec fn as_call(self) -> NfsCall {
        NfsCall::Read(self)
    }

    fn start(xid: u32, input: Input) -> (r: Step<ReadCall>) {
        nfsproc3_read(xid, input)
    }

    fn request<'a>(&'a self, context: &'a CallContext) -> (r: FsRequest<'a>) {
        match self {
            ReadCall::Handle { args } => FsRequest::FhToId { handle: &args.file },
            ReadCall::Attr { id, .. } => FsRequest::Getattr { auth: &context.auth, id: *id },
            ReadCall::Data { id, offset, count, .. } => FsRequest::Read {
                auth: &context.auth,
                id: *id,
                offset: *offset,
                count: *count,
            },
        }
    }

    fn resume(self, xid: u32, answer: FsAnswer) -> (r: Step<ReadCall>) {
        match (self, answer) {
            (ReadCall::Handle { args }, FsAnswer::Id(Ok(id))) => Step::Ask(
                ReadCall::Attr { id, offset: args.offset, count: args.count },
            ),
            (ReadCall::Handle { .. }, FsAnswer::Id(Err(stat))) => Step::Reply(
                reply_attr(xid, stat, post_op_attr::Void),
            ),
            (ReadCall::Attr { id, offset, count }, FsAnswer::Attr(attr)) => Step::Ask(
                ReadCall::Data { id, offset, count, attr: post_op_attr::from_getattr(&attr) },
            ),
            (ReadCall::Data { attr, .. }, FsAnswer::Bytes(Ok((bytes, eof)))) => {
                let mut out = reply_attr(xid, nfsstat3::NFS3_OK, attr);
                write_u32(&mut out, bytes.len() as u32);
                write_bool(&mut out, eof);
                write_opaque(&mut out, &bytes);
                Step::Reply(out)
            },
            (ReadCall::Data { attr, .. }, FsAnswer::Bytes(Err(stat))) => Step::Reply(
                reply_attr(xid, stat, attr),
            ),
            _ => Step::Unexpected,
        }
    }

    fn into_call(self) -> (r: NfsCall) {
        NfsCall::Read(self)
    }

    proof fn fitting_answer_is_expected(self, context: CallContext, xid: u32, answer: FsAnswer) {
    }

    proof fn answer_brings_reply_nearer(self, xid: u32, answer: FsAnswer) {
        reveal(nearer);
    }

    proof fn changes_at_most_once(self, context: CallContext, xid: u32, answer: FsAnswer) {
        reveal(is_settled);
    }

    proof fn asks_for_the_caller(self, context: CallContext) {
    }
}

/// What the file system read is what the client reads: the reply ends with the
/// bytes, behind the attributes, the count and the end-of-file flag.
pub proof fn lemma_bytes_reach_the_client(
    xid: u32,
    attr: post_op_attr,
    bytes: Seq<u8>,
    eof: bool,
)
    requires
        bytes.len() <= u32::MAX,
    ensures
        ({
            let front = attr_reply(xid, nfsstat3::NFS3_OK, attr).len() + 8;
            parse_opaque(read_reply(xid, attr, bytes, eof).skip(front as int)) == Ok::<
                (Seq<u8>, Seq<u8>),
                XdrError,
            >((bytes, Seq::empty()))
        }),
{
    broadcast use crate::xdr::group_xdr_lengths;

    let front = attr_reply(xid, nfsstat3::NFS3_OK, attr).len() + 8;
    assert(read_reply(xid, attr, bytes, eof).skip(front as int) =~= xdr_opaque(bytes)
        + Seq::<u8>::empty());
    opaque_round_trip(bytes, Seq::empty());
}

// ----------------------------------------------------------------- READLINK

/// A READLINK call that is being served.
pub enum ReadlinkCall {
    Handle { handle: nfs_fh3 },
    Attr { id: fileid3 },
    Path { id: fileid3, attr: post_op_attr },
}

/// How READLINK starts on its encoded arguments.
pub open spec fn readlink_starts(s: Seq<u8>, r: Step<ReadlinkCall>) -> bool {
    match parse_opaque(s) {
        Ok((h, _)) => r matches Step::Ask(ReadlinkCall::Handle { handle }) && handle@ == h,
        Err(e) => r == Step::<ReadlinkCall>::Fail(e),
    }
}

/// Starts READLINK.
pub fn nfsproc3_readlink(input: Input) -> (r: Step<ReadlinkCall>)
    ensures
        readlink_starts(input@, r),
{
    let mut input = input;
    match nfs_fh3::deserialize(&mut input) {
        Ok(handle) => Step::Ask(ReadlinkCall::Handle { handle }),
        Err(e) => Step::Fail(e),
    }
}

impl ReadlinkCall {
    /// How many answers at most it takes after the next one.
    pub open spec fn remaining(self) -> nat {
        match self {
            ReadlinkCall::Handle { .. } => 2,
            ReadlinkCall::Attr { .. } => 1,
            ReadlinkCall::Path { .. } => 0,
        }
    }

    /// It changes nothing any more.
    pub open spec fn settled(self) -> bool {
        true
    }
}

impl Procedure for ReadlinkCall {
    open spec fn starts(xid: u32, s: Seq<u8>, r: Step<ReadlinkCall>) -> bool {
        readlink_starts(s, r)
    }

    open spec fn asks<'a>(&'a self, context: &'a CallContext) -> FsRequest<'a> {
        match self {
            ReadlinkCall::Handle { handle } => FsRequest::FhToId { handle },
            ReadlinkCall::Attr { id } => FsRequest::Getattr { auth: &context.auth, id: *id },
            ReadlinkCall::Path { id, .. } => FsRequest::Readlink { auth: &context.auth, id: *id },
        }
    }

    open spec fn next(self, xid: u32, answer: FsAnswer) -> Outcome<ReadlinkCall> {
        match (self, answer) {
            (ReadlinkCall::Handle { .. }, FsAnswer::Id(Ok(id))) => Outcome::Ask(
                ReadlinkCall::Attr { id },
            ),
            (ReadlinkCall::Handle { .. }, FsAnswer::Id(Err(stat))) => Outcome::Reply(
                attr_reply(xid, stat, post_op_attr::Void),
            ),
            (ReadlinkCall::Attr { id }, FsAnswer::Attr(Ok(attr))) => Outcome::Ask(
                ReadlinkCall::Path { id, attr: post_op_attr::attributes(attr) },
            ),
            (ReadlinkCall::Attr { .. }, FsAnswer::Attr(Err(stat))) => Outcome::Reply(
                attr_reply(xid, stat, post_op_attr::Void),
            ),
            (ReadlinkCall::Path { attr, .. }, FsAnswer::Path(Ok(path))) => Outcome::Reply(
                attr_reply(xid, nfsstat3::NFS3_OK, attr) + xdr_opaque(path@),
            ),
            (ReadlinkCall::Path { attr, .. }, FsAnswer::Path(Err(stat))) => Outcome::Reply(
                attr_reply(xid, stat, attr),
            ),
            _ => Outcome::Unexpected,
        }
    }

    open spec fn encodable(self) -> bool {
        true
    }

    open spec fn as_call(self) -> NfsCall {
        NfsCall::Readlink(self)
    }

    fn start(xid: u32, input: Input) -> (r: Step<ReadlinkCall>) {
        nfsproc3_readlink(input)
    }

    fn request<'a>(&'a self, context: &'a CallContext) -> (r: FsRequest<'a>) {
        match self {
            ReadlinkCall::Handle { handle } => FsRequest::FhToId { handle },
            ReadlinkCall::Attr { id } => FsRequest::Getattr { auth: &context.auth, id: *id },
            ReadlinkCall::Path { id, .. } => FsRequest::Readlink { auth: &context.auth, id: *id },
        }
    }

    fn resume(self, xid: u32, answer: FsAnswer) -> (r: Step<ReadlinkCall>) {
        match (self, answer) {
            (ReadlinkCall::Handle { .. }, FsAnswer::Id(Ok(id))) => Step::Ask(
                ReadlinkCall::Attr { id },
            ),
            (ReadlinkCall::Handle { .. }, FsAnswer::Id(Err(stat))) => Step::Reply(
                reply_attr(xid, stat, post_op_attr::Void),
            ),
            (ReadlinkCall::Attr { id }, FsAnswer::Attr(Ok(attr))) => Step::Ask(
                ReadlinkCall::Path { id, attr: post_op_attr::attributes(attr) },
            ),
            (ReadlinkCall::Attr { .. }, FsAnswer::Attr(Err(stat))) => Step::Reply(
                reply_attr(xid, stat, post_op_attr::Void),
            ),
            (ReadlinkCall::Path { attr, .. }, FsAnswer::Path(Ok(path))) => {
                let mut out = reply_attr(xid, nfsstat3::NFS3_OK, attr);
                path.serialize(&mut out);
                Step::Reply(out)
            },
            (ReadlinkCall::Path { attr, .. }, FsAnswer::Path(Err(stat))) => Step::Reply(
                reply_attr(xid, stat, attr),
            ),
            _ => Step::Unexpected,
        }
    }

    fn into_call(self) -> (r: NfsCall) {
        NfsCall::Readlink(self)
    }

    proof fn fitting_answer_is_expected(self, context: CallContext, xid: u32, answer: FsAnswer) {
    }

    proof fn answer_brings_reply_nearer(self, xid: u32, answer: FsAnswer) {
        reveal(nearer);
    }

    proof fn changes_at_most_once(self, context: CallContext, xid: u32, answer: FsAnswer) {
        reveal(is_settled);
    }

    proof fn asks_for_the_caller(self, context: CallContext) {
    }
}

} // verus!
