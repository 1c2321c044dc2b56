//! What a call asks of the file system, and what its client is told.
//!
//! Each law starts from the arguments as a client sends them, item by item, and
//! follows a run of answers to the reply as the client reads it.
use super::change::{LinkCall, RemoveCall, RenameCall, SetattrCall};
use super::create::{CreateCall, MkdirCall, MknodCall, SymlinkCall};
use super::dispatch::Procedure;
use super::fs::{FsinfoCall, FsstatCall, PathconfCall};
use super::inspect::{AccessCall, GetattrCall, LookupCall, ReadCall, ReadlinkCall};
use super::readdir::ReaddirCall;
use super::runs::{leave, served};
use super::write::{CommitCall, WriteCall};
use super::{Outcome, Step};
use crate::client::{
    attributes_are_received, before_and_after, found, guard_is_received, known, lemma_attr_is_told,
    lemma_bytes_are_told, lemma_file_is_told, lemma_found_is_told, lemma_fsinfo_is_told,
    lemma_fsstat_is_told, lemma_link_is_told, lemma_loss_is_told, lemma_made_is_told,
    lemma_number_is_told, lemma_numbers_are_known, lemma_path_is_told, lemma_pathconf_is_told,
    lemma_refusals_are_told, lemma_status_is_told, lemma_two_are_told, lemma_wcc_is_told,
    lemma_write_is_told, nothing_known, sent_attributes, sent_guard, stability_of_number,
    tells_attr, tells_bytes, tells_committed, tells_file, tells_found, tells_fsinfo, tells_fsstat,
    tells_link, tells_made, tells_number, tells_path, tells_pathconf, tells_refusal, tells_status,
    tells_two, tells_wcc, tells_written, type_of_number,
};
use crate::nfs::{
    fattr3, fileid3, fsinfo3, fsstat3, ftype3, nfs_fh3, nfspath3, nfsstat3, nfstime3, post_op_attr,
    specdata3, stable_how,
};
use crate::nfs_args::{
    parse_COMMIT3args, parse_CREATE3args, parse_LINK3args, parse_MKDIR3args, parse_MKNOD3args,
    parse_READ3args, parse_READDIR3args, parse_RENAME3args, parse_SETATTR3args, parse_SYMLINK3args,
    parse_WRITE3args, parse_diropargs3, parse_sattr3, sattr3,
};
use crate::vfs::{
    CallContext, CommitResult, FsAnswer, FsRequest, RpcRequestContext, VFSCapabilities, WriteResult,
};
use crate::xdr::{
    opaque_round_trip, parse_opaque, u32_round_trip, u64_round_trip, xdr_opaque, xdr_u32, xdr_u64,
};
use vstd::prelude::*;

verus! {

/// What is asked of a file system, with names, handles and data as bytes.
pub enum Asked {
    Capabilities,
    File { handle: Seq<u8> },
    Handle { id: fileid3 },
    Getattr { id: fileid3 },
    Setattr { id: fileid3, attr: sattr3 },
    Lookup { dirid: fileid3, name: Seq<u8> },
    Read { id: fileid3, offset: u64, count: u32 },
    Write {
        rpc: RpcRequestContext,
        stability: stable_how,
        id: fileid3,
        offset: u64,
        data: Seq<u8>,
    },
    Create { dirid: fileid3, name: Seq<u8>, attr: sattr3 },
    CreateExclusive { dirid: fileid3, name: Seq<u8> },
    Mkdir { dirid: fileid3, name: Seq<u8>, attr: sattr3 },
    Remove { dirid: fileid3, name: Seq<u8> },
    Rename { from_dirid: fileid3, from_name: Seq<u8>, to_dirid: fileid3, to_name: Seq<u8> },
    Readdir { dirid: fileid3, start_after: fileid3, max_entries: usize },
    Symlink { dirid: fileid3, name: Seq<u8>, target: Seq<u8>, attr: sattr3 },
    Readlink { id: fileid3 },
    Mknod {
        dirid: fileid3,
        name: Seq<u8>,
        ftype: ftype3,
        attr: sattr3,
        spec: Option<specdata3>,
    },
    Link { id: fileid3, dirid: fileid3, name: Seq<u8> },
    Commit { rpc: RpcRequestContext, id: fileid3, offset: u64, count: u32 },
    Fsinfo { id: fileid3 },
    Fsstat { id: fileid3 },
}

/// A request, as the file system sees it.
pub open spec fn seen<'a>(request: FsRequest<'a>) -> Asked {
    match request {
        FsRequest::Capabilities => Asked::Capabilities,
        FsRequest::FhToId { handle } => Asked::File { handle: handle@ },
        FsRequest::IdToFh { id } => Asked::Handle { id },
        FsRequest::Getattr { id, .. } => Asked::Getattr { id },
        FsRequest::Setattr { id, attr, .. } => Asked::Setattr { id, attr },
        FsRequest::Lookup { dirid, name, .. } => Asked::Lookup { dirid, name: name@ },
        FsRequest::Read { id, offset, count, .. } => Asked::Read { id, offset, count },
        FsRequest::Write { write_context, id, offset, data, .. } => Asked::Write {
            rpc: write_context.rpc,
            stability: write_context.requested_stability,
            id,
            offset,
            data: data@,
        },
        FsRequest::Create { dirid, name, attr, .. } => Asked::Create { dirid, name: name@, attr },
        FsRequest::CreateExclusive { dirid, name, .. } => Asked::CreateExclusive {
            dirid,
            name: name@,
        },
        FsRequest::Mkdir { dirid, name, attr, .. } => Asked::Mkdir { dirid, name: name@, attr },
        FsRequest::Remove { dirid, name, .. } => Asked::Remove { dirid, name: name@ },
        FsRequest::Rename { from_dirid, from_name, to_dirid, to_name, .. } => Asked::Rename {
            from_dirid,
            from_name: from_name@,
            to_dirid,
            to_name: to_name@,
        },
        FsRequest::Readdir { dirid, start_after, max_entries, .. } => Asked::Readdir {
            dirid,
            start_after,
            max_entries,
        },
        FsRequest::Symlink { dirid, name, target, attr, .. } => Asked::Symlink {
            dirid,
            name: name@,
            target: target@,
            attr,
        },
        FsRequest::Readlink { id, .. } => Asked::Readlink { id },
        FsRequest::Mknod { dirid, name, ftype, attr, spec, .. } => Asked::Mknod {
            dirid,
            name: name@,
            ftype,
            attr,
            spec,
        },
        FsRequest::Link { id, dirid, name, .. } => Asked::Link { id, dirid, name: name@ },
        FsRequest::Commit { commit_context, id, offset, count, .. } => Asked::Commit {
            rpc: commit_context.rpc,
            id,
            offset,
            count,
        },
        FsRequest::Fsinfo { id, .. } => Asked::Fsinfo { id },
        FsRequest::Fsstat { id, .. } => Asked::Fsstat { id },
    }
}

/// Where a procedure stands after a run of answers.
#[verifier::opaque]
pub open spec fn stands<P: Procedure>(p: P, xid: u32, answers: Seq<FsAnswer>) -> Outcome<P>
    decreases answers.len(),
{
    if answers.len() == 0 {
        Outcome::Ask(p)
    } else {
        match stands(p, xid, answers.drop_last()) {
            Outcome::Ask(q) => q.next(xid, answers.last()),
            end => end,
        }
    }
}

/// What a procedure asks in turn, as the answers come in.
#[verifier::opaque]
pub open spec fn asked<P: Procedure>(
    p: P,
    context: CallContext,
    xid: u32,
    answers: Seq<FsAnswer>,
) -> Seq<Asked>
    decreases answers.len(),
{
    if answers.len() == 0 {
        Seq::empty()
    } else {
        let before = asked(p, context, xid, answers.drop_last());
        match stands(p, xid, answers.drop_last()) {
            Outcome::Ask(q) => before.push(seen(q.asks(&context))),
            _ => before,
        }
    }
}

/// What the client is told after a run of answers.
pub open spec fn told<P: Procedure>(p: P, xid: u32, answers: Seq<FsAnswer>) -> Option<Seq<u8>> {
    match stands(p, xid, answers) {
        Outcome::Reply(reply) => Some(reply),
        _ => None,
    }
}

pub broadcast proof fn stands_at_first<P: Procedure>(p: P, xid: u32)
    ensures
        #[trigger] stands(p, xid, Seq::empty()) == Outcome::Ask(p),
{
    reveal(stands);
}

pub broadcast proof fn stands_after<P: Procedure>(
    p: P,
    xid: u32,
    answers: Seq<FsAnswer>,
    answer: FsAnswer,
)
    ensures
        #[trigger] stands(p, xid, answers.push(answer)) == match stands(p, xid, answers) {
            Outcome::Ask(q) => q.next(xid, answer),
            end => end,
        },
{
    reveal(stands);
    assert(answers.push(answer).drop_last() =~= answers);
}

pub broadcast proof fn asked_at_first<P: Procedure>(p: P, context: CallContext, xid: u32)
    ensures
        #[trigger] asked(p, context, xid, Seq::empty()) == Seq::<Asked>::empty(),
{
    reveal(asked);
}

pub broadcast proof fn asked_after<P: Procedure>(
    p: P,
    context: CallContext,
    xid: u32,
    answers: Seq<FsAnswer>,
    answer: FsAnswer,
)
    ensures
        #[trigger] asked(p, context, xid, answers.push(answer)) == match stands(p, xid, answers) {
            Outcome::Ask(q) => asked(p, context, xid, answers).push(seen(q.asks(&context))),
            _ => asked(p, context, xid, answers),
        },
{
    reveal(asked);
    assert(answers.push(answer).drop_last() =~= answers);
}

pub broadcast group group_runs {
    stands_at_first,
    stands_after,
    asked_at_first,
    asked_after,
}

/// The answers can be taken one by one, from the first on.
pub proof fn lemma_runs_agree<P: Procedure>(p: P, xid: u32, answers: Seq<FsAnswer>)
    ensures
        stands(p, xid, answers) == served(p, xid, answers),
    decreases answers.len(),
{
    broadcast use group_runs;

    if answers.len() == 0 {
        assert(answers =~= Seq::empty());
    } else {
        match p.next(xid, answers[0]) {
            Outcome::Ask(q) => {
                lemma_runs_agree(q, xid, answers.skip(1));
                lemma_first_answer(p, xid, answers);
            },
            _ => {
                lemma_first_answer(p, xid, answers);
            },
        }
    }
}

proof fn lemma_first_answer<P: Procedure>(p: P, xid: u32, answers: Seq<FsAnswer>)
    requires
        answers.len() > 0,
    ensures
        stands(p, xid, answers) == match p.next(xid, answers[0]) {
            Outcome::Ask(q) => stands(q, xid, answers.skip(1)),
            end => end,
        },
    decreases answers.len(),
{
    broadcast use group_runs;

    let before = answers.drop_last();
    assert(answers =~= before.push(answers.last()));
    if before.len() == 0 {
        assert(before =~= Seq::empty());
        assert(answers.skip(1) =~= Seq::empty());
    } else {
        lemma_first_answer(p, xid, before);
        assert(answers.skip(1) =~= before.skip(1).push(answers.last()));
    }
}

/// The answer of a file system that cannot be written.
pub open spec fn no_leave() -> FsAnswer {
    FsAnswer::Capabilities(VFSCapabilities::ReadOnly)
}

/// A run of one answer.
pub open spec fn run(first: FsAnswer) -> Seq<FsAnswer> {
    Seq::empty().push(first)
}

/// A single request.
pub open spec fn one(first: Asked) -> Seq<Asked> {
    Seq::empty().push(first)
}

/// The status of an operation that was carried out or failed.
pub open spec fn status_after(done: Result<(), nfsstat3>) -> nfsstat3 {
    match done {
        Ok(_) => nfsstat3::NFS3_OK,
        Err(stat) => stat,
    }
}

// --------------------------------------------------------------------- GETATTR

/// GETATTR asks for the attributes of the file that the handle stands for, and
/// tells the client all of them.
pub proof fn lemma_getattr_tells_the_attributes(
    xid: u32,
    context: CallContext,
    handle: Seq<u8>,
    rest: Seq<u8>,
    start: Step<GetattrCall>,
    id: fileid3,
    attr: fattr3,
    stat: nfsstat3,
)
    requires
        handle.len() <= u32::MAX,
        GetattrCall::starts(
            xid,
            xdr_opaque(handle) + rest,
            start,
        ),
    ensures
        ({
            let r1 = run(FsAnswer::Id(Ok(id)));
            let r2 = r1.push(FsAnswer::Attr(Ok(attr)));
            let q1 = one(Asked::File { handle });
            let q2 = q1.push(Asked::Getattr { id });
            &&& start matches Step::Ask(p)
            &&& asked(p, context, xid, r2) == q2
            &&& told(p, xid, r2) matches Some(reply)
                && tells_file(reply, xid, nfsstat3::NFS3_OK, attr)
            &&& asked(p, context, xid, run(FsAnswer::Id(Err(stat)))) == one(Asked::File { handle })
            &&& told(p, xid, run(FsAnswer::Id(Err(stat)))) matches Some(reply)
                && tells_status(reply, xid, stat)
            &&& asked(p, context, xid, r1.push(FsAnswer::Attr(Err(stat))))
                == q1.push(Asked::Getattr { id })
            &&& told(p, xid, r1.push(FsAnswer::Attr(Err(stat)))) matches Some(reply)
                && tells_status(reply, xid, stat)
        }),
{
    broadcast use group_runs;

    opaque_round_trip(handle, rest);
    lemma_file_is_told(xid, nfsstat3::NFS3_OK, attr);
    lemma_status_is_told(xid, stat);
}

// ---------------------------------------------------------------------- LOOKUP

/// LOOKUP looks for the name that was given in the directory that the handle
/// stands for. It tells the handle and the attributes of what was found, and the
/// attributes of the directory.
pub proof fn lemma_lookup_finds_the_name(
    xid: u32,
    context: CallContext,
    dir: Seq<u8>,
    name: Seq<u8>,
    rest: Seq<u8>,
    start: Step<LookupCall>,
    dirid: fileid3,
    dir_attr: Result<fattr3, nfsstat3>,
    id: fileid3,
    attr: Result<fattr3, nfsstat3>,
    handle: nfs_fh3,
    stat: nfsstat3,
)
    requires
        dir.len() <= u32::MAX,
        name.len() <= u32::MAX,
        handle@.len() <= u32::MAX,
        LookupCall::starts(
            xid,
            xdr_opaque(dir) + (xdr_opaque(name) + rest),
            start,
        ),
    ensures
        ({
            let r1 = run(FsAnswer::Id(Ok(dirid)));
            let r2 = r1.push(FsAnswer::Attr(dir_attr));
            let r3 = r2.push(FsAnswer::Id(Ok(id)));
            let r4 = r3.push(FsAnswer::Attr(attr));
            let r5 = r4.push(FsAnswer::Handle(handle));
            let q1 = one(Asked::File { handle: dir });
            let q2 = q1.push(Asked::Getattr { id: dirid });
            let q3 = q2.push(Asked::Lookup { dirid, name });
            let q4 = q3.push(Asked::Getattr { id });
            let q5 = q4.push(Asked::Handle { id });
            &&& start matches Step::Ask(p)
            &&& asked(p, context, xid, r5) == q5
            &&& told(p, xid, r5) matches Some(reply) && tells_found(
                reply,
                xid,
                handle@,
                known(attr),
                known(dir_attr),
            )
            &&& asked(p, context, xid, run(FsAnswer::Id(Err(stat))))
                == one(Asked::File { handle: dir })
            &&& told(p, xid, run(FsAnswer::Id(Err(stat)))) matches Some(reply)
                && tells_attr(reply, xid, stat, post_op_attr::Void)
            &&& asked(p, context, xid, r2.push(FsAnswer::Id(Err(stat))))
                == q2.push(Asked::Lookup { dirid, name })
            &&& told(p, xid, r2.push(FsAnswer::Id(Err(stat)))) matches Some(reply)
                && tells_attr(reply, xid, stat, known(dir_attr))
        }),
{
    broadcast use group_runs;

    let s1 = xdr_opaque(name) + rest;
    opaque_round_trip(dir, s1);
    opaque_round_trip(name, rest);
    lemma_found_is_told(xid, handle@, known(attr), known(dir_attr));
    lemma_attr_is_told(xid, stat, post_op_attr::Void, Seq::empty());
    lemma_attr_is_told(xid, stat, known(dir_attr), Seq::empty());
}

// ---------------------------------------------------------------------- ACCESS

/// ACCESS grants what was asked for; on a file system that cannot be written only
/// the two lowest bits of it, reading and looking up.
pub proof fn lemma_access_grants_what_is_asked(
    xid: u32,
    context: CallContext,
    handle: Seq<u8>,
    access: u32,
    rest: Seq<u8>,
    start: Step<AccessCall>,
    id: fileid3,
    attr: Result<fattr3, nfsstat3>,
    stat: nfsstat3,
)
    requires
        handle.len() <= u32::MAX,
        AccessCall::starts(
            xid,
            xdr_opaque(handle) + (xdr_u32(access) + rest),
            start,
        ),
    ensures
        ({
            let r1 = run(FsAnswer::Id(Ok(id)));
            let r2 = r1.push(FsAnswer::Attr(attr));
            let r3 = r2.push(leave());
            let q1 = one(Asked::File { handle });
            let q2 = q1.push(Asked::Getattr { id });
            let q3 = q2.push(Asked::Capabilities);
            &&& start matches Step::Ask(p)
            &&& asked(p, context, xid, r3) == q3
            &&& told(p, xid, r3) matches Some(reply)
                && tells_number(reply, xid, known(attr), access)
            &&& asked(p, context, xid, r2.push(no_leave())) == q2.push(Asked::Capabilities)
            &&& told(p, xid, r2.push(no_leave())) matches Some(reply)
                && tells_number(reply, xid, known(attr), access % 4)
            &&& asked(p, context, xid, run(FsAnswer::Id(Err(stat)))) == one(Asked::File { handle })
            &&& told(p, xid, run(FsAnswer::Id(Err(stat)))) matches Some(reply)
                && tells_attr(reply, xid, stat, post_op_attr::Void)
        }),
{
    broadcast use group_runs;

    let s1 = xdr_u32(access) + rest;
    opaque_round_trip(handle, s1);
    u32_round_trip(access, rest);
    assert(access & (0x0001u32 | 0x0002u32) == access % 4) by (bit_vector);
    lemma_number_is_told(xid, known(attr), access);
    lemma_number_is_told(xid, known(attr), access % 4);
    lemma_attr_is_told(xid, stat, post_op_attr::Void, Seq::empty());
}

// -------------------------------------------------------------------- READLINK

/// READLINK asks for the path of the link that the handle stands for, and tells
/// it.
pub proof fn lemma_readlink_tells_the_path(
    xid: u32,
    context: CallContext,
    handle: Seq<u8>,
    rest: Seq<u8>,
    start: Step<ReadlinkCall>,
    id: fileid3,
    attr: fattr3,
    path: nfspath3,
    stat: nfsstat3,
)
    requires
        handle.len() <= u32::MAX,
        path@.len() <= u32::MAX,
        ReadlinkCall::starts(
            xid,
            xdr_opaque(handle) + rest,
            start,
        ),
    ensures
        ({
            let r1 = run(FsAnswer::Id(Ok(id)));
            let r2 = r1.push(FsAnswer::Attr(Ok(attr)));
            let r3 = r2.push(FsAnswer::Path(Ok(path)));
            let q1 = one(Asked::File { handle });
            let q2 = q1.push(Asked::Getattr { id });
            let q3 = q2.push(Asked::Readlink { id });
            &&& start matches Step::Ask(p)
            &&& asked(p, context, xid, r3) == q3
            &&& told(p, xid, r3) matches Some(reply)
                && tells_path(reply, xid, post_op_attr::attributes(attr), path@)
            &&& asked(p, context, xid, run(FsAnswer::Id(Err(stat)))) == one(Asked::File { handle })
            &&& told(p, xid, run(FsAnswer::Id(Err(stat)))) matches Some(reply)
                && tells_attr(reply, xid, stat, post_op_attr::Void)
            &&& asked(p, context, xid, r1.push(FsAnswer::Attr(Err(stat))))
                == q1.push(Asked::Getattr { id })
            &&& told(p, xid, r1.push(FsAnswer::Attr(Err(stat)))) matches Some(reply)
                && tells_attr(reply, xid, stat, post_op_attr::Void)
            &&& asked(p, context, xid, r2.push(FsAnswer::Path(Err(stat))))
                == q2.push(Asked::Readlink { id })
            &&& told(p, xid, r2.push(FsAnswer::Path(Err(stat)))) matches Some(reply) && tells_attr(
                reply,
                xid,
                stat,
                post_op_attr::attributes(attr),
            )
        }),
{
    broadcast use group_runs;

    opaque_round_trip(handle, rest);
    lemma_path_is_told(xid, post_op_attr::attributes(attr), path@);
    lemma_attr_is_told(xid, stat, post_op_attr::Void, Seq::empty());
    lemma_attr_is_told(xid, stat, post_op_attr::attributes(attr), Seq::empty());
}

// ------------------------------------------------------------------------ READ

/// READ asks for as many bytes as were asked for, at the offset that was asked
/// for, of the file that the handle stands for. The client is told exactly the
/// bytes that the file system read there, how many they are, and whether they
/// reach the end of the file.
pub proof fn lemma_read_tells_the_bytes_at_the_offset(
    xid: u32,
    context: CallContext,
    handle: Seq<u8>,
    offset: u64,
    count: u32,
    rest: Seq<u8>,
    start: Step<ReadCall>,
    id: fileid3,
    attr: Result<fattr3, nfsstat3>,
    bytes: Vec<u8>,
    eof: bool,
    stat: nfsstat3,
)
    requires
        handle.len() <= u32::MAX,
        count <= 1048576,
        bytes@.len() <= u32::MAX,
        ReadCall::starts(
            xid,
            xdr_opaque(handle) + (xdr_u64(offset) + (xdr_u32(count) + rest)),
            start,
        ),
    ensures
        ({
            let r1 = run(FsAnswer::Id(Ok(id)));
            let r2 = r1.push(FsAnswer::Attr(attr));
            let r3 = r2.push(FsAnswer::Bytes(Ok((bytes, eof))));
            let q1 = one(Asked::File { handle });
            let q2 = q1.push(Asked::Getattr { id });
            let q3 = q2.push(Asked::Read { id, offset, count });
            &&& start matches Step::Ask(p)
            &&& asked(p, context, xid, r3) == q3
            &&& told(p, xid, r3) matches Some(reply)
                && tells_bytes(reply, xid, known(attr), bytes@, eof)
            &&& asked(p, context, xid, run(FsAnswer::Id(Err(stat)))) == one(Asked::File { handle })
            &&& told(p, xid, run(FsAnswer::Id(Err(stat)))) matches Some(reply)
                && tells_attr(reply, xid, stat, post_op_attr::Void)
            &&& asked(p, context, xid, r2.push(FsAnswer::Bytes(Err(stat))))
                == q2.push(Asked::Read { id, offset, count })
            &&& told(p, xid, r2.push(FsAnswer::Bytes(Err(stat)))) matches Some(reply)
                && tells_attr(reply, xid, stat, known(attr))
        }),
{
    broadcast use group_runs;

    let s2 = xdr_u32(count) + rest;
    let s1 = xdr_u64(offset) + s2;
    opaque_round_trip(handle, s1);
    u64_round_trip(offset, s2);
    u32_round_trip(count, rest);
    lemma_bytes_are_told(xid, known(attr), bytes@, eof);
    lemma_attr_is_told(xid, stat, post_op_attr::Void, Seq::empty());
    lemma_attr_is_told(xid, stat, known(attr), Seq::empty());
}

/// READ of more than a mebibyte is refused before anything is asked, and READ of
/// no more is not.
pub proof fn lemma_read_is_limited(
    xid: u32,
    handle: Seq<u8>,
    offset: u64,
    count: u32,
    rest: Seq<u8>,
    r: Step<ReadCall>,
)
    requires
        handle.len() <= u32::MAX,
        ReadCall::starts(xid, xdr_opaque(handle) + (xdr_u64(offset) + (xdr_u32(count) + rest)), r),
    ensures
        count <= 1048576 <==> r is Ask,
        count > 1048576 ==> (r@ matches Outcome::Reply(reply) && tells_attr(
            reply,
            xid,
            nfsstat3::NFS3ERR_INVAL,
            post_op_attr::Void,
        )),
{
    let s2 = xdr_u32(count) + rest;
    let s1 = xdr_u64(offset) + s2;
    opaque_round_trip(handle, s1);
    u64_round_trip(offset, s2);
    u32_round_trip(count, rest);
    lemma_attr_is_told(xid, nfsstat3::NFS3ERR_INVAL, post_op_attr::Void, Seq::empty());
}

// ----------------------------------------------------------------------- WRITE

/// WRITE hands the data that was sent to the file system once, for the offset and
/// with the stability that were asked for and with the context of the call. The
/// client is told that as many bytes were written as it sent, how stable they
/// are, and the verifier that the file system gave.
pub proof fn lemma_write_writes_the_data_at_the_offset(
    xid: u32,
    context: CallContext,
    handle: Seq<u8>,
    offset: u64,
    count: u32,
    stable: u32,
    data: Seq<u8>,
    rest: Seq<u8>,
    start: Step<WriteCall>,
    how: stable_how,
    id: fileid3,
    attr: Result<fattr3, nfsstat3>,
    result: WriteResult,
    stat: nfsstat3,
)
    requires
        handle.len() <= u32::MAX,
        data.len() <= u32::MAX,
        count == data.len(),
        count <= 1048576,
        stability_of_number(stable) == Some(how),
        WriteCall::starts(
            xid,
            xdr_opaque(handle) + (xdr_u64(offset) + (xdr_u32(count) + (xdr_u32(stable) + (
                xdr_opaque(data) + rest)))),
            start,
        ),
    ensures
        ({
            let r1 = run(leave());
            let r2 = r1.push(FsAnswer::Id(Ok(id)));
            let r3 = r2.push(FsAnswer::Attr(attr));
            let r4 = r3.push(FsAnswer::Written(Ok(result)));
            let q1 = one(Asked::Capabilities);
            let q2 = q1.push(Asked::File { handle });
            let q3 = q2.push(Asked::Getattr { id });
            let q4 = q3.push(Asked::Write { rpc: context.rpc, stability: how, id, offset, data });
            &&& start matches Step::Ask(p)
            &&& asked(p, context, xid, r4) == q4
            &&& told(p, xid, r4) matches Some(reply) && tells_written(
                reply,
                xid,
                before_and_after(found(attr), Ok(result.attributes)),
                data.len() as u32,
                result.committed,
                result.verifier@,
            )
            &&& asked(p, context, xid, run(no_leave())) == one(Asked::Capabilities)
            &&& told(p, xid, run(no_leave())) matches Some(reply)
                && tells_wcc(reply, xid, nfsstat3::NFS3ERR_ROFS, nothing_known())
            &&& asked(p, context, xid, r1.push(FsAnswer::Id(Err(stat))))
                == q1.push(Asked::File { handle })
            &&& told(p, xid, r1.push(FsAnswer::Id(Err(stat)))) matches Some(reply)
                && tells_wcc(reply, xid, stat, nothing_known())
            &&& asked(p, context, xid, r3.push(FsAnswer::Written(Err(stat))))
                == q3.push(Asked::Write { rpc: context.rpc, stability: how, id, offset, data })
            &&& told(p, xid, r3.push(FsAnswer::Written(Err(stat)))) matches Some(reply)
                && tells_wcc(reply, xid, stat, nothing_known())
        }),
{
    broadcast use group_runs;

    let s4 = xdr_opaque(data) + rest;
    let s3 = xdr_u32(stable) + s4;
    let s2 = xdr_u32(count) + s3;
    let s1 = xdr_u64(offset) + s2;
    opaque_round_trip(handle, s1);
    u64_round_trip(offset, s2);
    u32_round_trip(count, s3);
    u32_round_trip(stable, s4);
    opaque_round_trip(data, rest);
    lemma_numbers_are_known(stat, ftype3::NF3REG, how, stable);
    lemma_write_is_told(
        xid,
        before_and_after(found(attr), Ok(result.attributes)).before,
        count,
        result,
    );
    lemma_loss_is_told(xid, stat);
    lemma_loss_is_told(xid, nfsstat3::NFS3ERR_ROFS);
}

/// WRITE of more than a mebibyte is refused as invalid. WRITE whose count is not
/// the length of its data, or whose stability is none that clients know, is
/// answered as garbage. Nothing is written.
pub proof fn lemma_write_refuses_garbage(
    xid: u32,
    context: CallContext,
    handle: Seq<u8>,
    offset: u64,
    count: u32,
    stable: u32,
    data: Seq<u8>,
    rest: Seq<u8>,
    start: Step<WriteCall>,
)
    requires
        handle.len() <= u32::MAX,
        data.len() <= u32::MAX,
        WriteCall::starts(
            xid,
            xdr_opaque(handle) + (xdr_u64(offset) + (xdr_u32(count) + (xdr_u32(stable) + (
                xdr_opaque(data) + rest)))),
            start,
        ),
    ensures
        ({
            let r1 = run(leave());
            let q1 = one(Asked::Capabilities);
            &&& start matches Step::Ask(p)
            &&& asked(p, context, xid, r1) == q1
            &&& count > 1048576 ==> (told(p, xid, r1) matches Some(reply) && tells_wcc(
                reply,
                xid,
                nfsstat3::NFS3ERR_INVAL,
                nothing_known(),
            ))
            &&& count <= 1048576 && (count != data.len() || stability_of_number(stable) is None) ==> (told(
                p,
                xid,
                r1,
            ) matches Some(reply) && tells_refusal(reply, xid, 4))
        }),
{
    broadcast use group_runs;

    let s4 = xdr_opaque(data) + rest;
    let s3 = xdr_u32(stable) + s4;
    let s2 = xdr_u32(count) + s3;
    let s1 = xdr_u64(offset) + s2;
    opaque_round_trip(handle, s1);
    u64_round_trip(offset, s2);
    u32_round_trip(count, s3);
    u32_round_trip(stable, s4);
    opaque_round_trip(data, rest);
    lemma_numbers_are_known(nfsstat3::NFS3_OK, ftype3::NF3REG, stable_how::UNSTABLE, stable);
    lemma_loss_is_told(xid, nfsstat3::NFS3ERR_INVAL);
    lemma_refusals_are_told(xid);
}

// ---------------------------------------------------------------------- COMMIT

/// COMMIT hands the range that was asked for to the file system once, with the
/// context of the call, and tells the verifier that the file system gave.
pub proof fn lemma_commit_commits_the_range(
    xid: u32,
    context: CallContext,
    handle: Seq<u8>,
    offset: u64,
    count: u32,
    rest: Seq<u8>,
    start: Step<CommitCall>,
    id: fileid3,
    attr: Result<fattr3, nfsstat3>,
    result: CommitResult,
    after: Result<fattr3, nfsstat3>,
    stat: nfsstat3,
)
    requires
        handle.len() <= u32::MAX,
        CommitCall::starts(
            xid,
            xdr_opaque(handle) + (xdr_u64(offset) + (xdr_u32(count) + rest)),
            start,
        ),
    ensures
        ({
            let r1 = run(leave());
            let r2 = r1.push(FsAnswer::Id(Ok(id)));
            let r3 = r2.push(FsAnswer::Attr(attr));
            let r4 = r3.push(FsAnswer::Committed(Ok(result)));
            let r5 = r4.push(FsAnswer::Attr(after));
            let q1 = one(Asked::Capabilities);
            let q2 = q1.push(Asked::File { handle });
            let q3 = q2.push(Asked::Getattr { id });
            let q4 = q3.push(Asked::Commit { rpc: context.rpc, id, offset, count });
            let q5 = q4.push(Asked::Getattr { id });
            &&& start matches Step::Ask(p)
            &&& asked(p, context, xid, r5) == q5
            &&& told(p, xid, r5) matches Some(reply) && tells_committed(
                reply,
                xid,
                before_and_after(found(attr), after),
                result.verifier@,
            )
            &&& asked(p, context, xid, run(no_leave())) == one(Asked::Capabilities)
            &&& told(p, xid, run(no_leave())) matches Some(reply)
                && tells_wcc(reply, xid, nfsstat3::NFS3ERR_ROFS, nothing_known())
            &&& asked(p, context, xid, r1.push(FsAnswer::Id(Err(stat))))
                == q1.push(Asked::File { handle })
            &&& told(p, xid, r1.push(FsAnswer::Id(Err(stat)))) matches Some(reply)
                && tells_wcc(reply, xid, stat, nothing_known())
            &&& asked(p, context, xid, r3.push(FsAnswer::Committed(Err(stat))))
                == q3.push(Asked::Commit { rpc: context.rpc, id, offset, count })
            &&& told(p, xid, r3.push(FsAnswer::Committed(Err(stat)))) matches Some(reply)
                && tells_wcc(reply, xid, stat, nothing_known())
        }),
{
    broadcast use group_runs;

    let s2 = xdr_u32(count) + rest;
    let s1 = xdr_u64(offset) + s2;
    opaque_round_trip(handle, s1);
    u64_round_trip(offset, s2);
    u32_round_trip(count, rest);
    lemma_wcc_is_told(
        xid,
        nfsstat3::NFS3_OK,
        before_and_after(found(attr), after),
        result.verifier@,
    );
    lemma_loss_is_told(xid, stat);
    lemma_loss_is_told(xid, nfsstat3::NFS3ERR_ROFS);
}

// ---------------------------------------------------------------------- CREATE

/// CREATE without a check makes a file of the name and with the attributes that
/// were given, in the directory that the handle stands for. It tells the handle
/// and the attributes of the new file, and of the directory before and after.
pub proof fn lemma_unchecked_create_makes_the_file(
    xid: u32,
    context: CallContext,
    dir: Seq<u8>,
    name: Seq<u8>,
    attributes: sattr3,
    rest: Seq<u8>,
    start: Step<CreateCall>,
    dirid: fileid3,
    before: fattr3,
    id: fileid3,
    made: fattr3,
    after: Result<fattr3, nfsstat3>,
    handle: nfs_fh3,
    stat: nfsstat3,
)
    requires
        dir.len() <= u32::MAX,
        name.len() <= u32::MAX,
        handle@.len() <= u32::MAX,
        CreateCall::starts(
            xid,
            xdr_opaque(dir) + (xdr_opaque(name) + (xdr_u32(0) + (
                sent_attributes(attributes) + rest))),
            start,
        ),
    ensures
        ({
            let r1 = run(leave());
            let r2 = r1.push(FsAnswer::Id(Ok(dirid)));
            let r3 = r2.push(FsAnswer::Attr(Ok(before)));
            let r4 = r3.push(FsAnswer::Created(Ok((id, made))));
            let r5 = r4.push(FsAnswer::Attr(after));
            let r6 = r5.push(FsAnswer::Handle(handle));
            let q1 = one(Asked::Capabilities);
            let q2 = q1.push(Asked::File { handle: dir });
            let q3 = q2.push(Asked::Getattr { id: dirid });
            let q4 = q3.push(Asked::Create { dirid, name, attr: attributes });
            let q5 = q4.push(Asked::Getattr { id: dirid });
            let q6 = q5.push(Asked::Handle { id });
            &&& start matches Step::Ask(p)
            &&& asked(p, context, xid, r6) == q6
            &&& told(p, xid, r6) matches Some(reply) && tells_made(
                reply,
                xid,
                handle@,
                post_op_attr::attributes(made),
                before_and_after(Some(before), after),
            )
            &&& asked(p, context, xid, run(no_leave())) == one(Asked::Capabilities)
            &&& told(p, xid, run(no_leave())) matches Some(reply)
                && tells_wcc(reply, xid, nfsstat3::NFS3ERR_ROFS, nothing_known())
            &&& asked(p, context, xid, r1.push(FsAnswer::Id(Err(stat))))
                == q1.push(Asked::File { handle: dir })
            &&& told(p, xid, r1.push(FsAnswer::Id(Err(stat)))) matches Some(reply)
                && tells_wcc(reply, xid, stat, nothing_known())
            &&& asked(p, context, xid, r2.push(FsAnswer::Attr(Err(stat))))
                == q2.push(Asked::Getattr { id: dirid })
            &&& told(p, xid, r2.push(FsAnswer::Attr(Err(stat)))) matches Some(reply)
                && tells_wcc(reply, xid, stat, nothing_known())
            &&& asked(p, context, xid, r3.push(FsAnswer::Created(Err(stat))).push(
                FsAnswer::Attr(after)))
                == q3.push(Asked::Create { dirid, name, attr: attributes }).push(
                    Asked::Getattr { id: dirid })
            &&& told(p, xid, r3.push(FsAnswer::Created(Err(stat))).push(
                FsAnswer::Attr(after))) matches Some(reply)
                && tells_wcc(
                reply,
                xid,
                stat,
                before_and_after(Some(before), after),
            )
        }),
{
    broadcast use group_runs;

    let s3 = sent_attributes(attributes) + rest;
    let s2 = xdr_u32(0) + s3;
    let s1 = xdr_opaque(name) + s2;
    opaque_round_trip(dir, s1);
    opaque_round_trip(name, s2);
    u32_round_trip(0, s3);
    attributes_are_received(attributes, rest);
    lemma_made_is_told(
        xid,
        handle@,
        post_op_attr::attributes(made),
        before_and_after(Some(before), after),
    );
    lemma_wcc_is_told(
        xid,
        stat,
        before_and_after(Some(before), after),
        Seq::empty(),
    );
    lemma_loss_is_told(xid, stat);
    lemma_loss_is_told(xid, nfsstat3::NFS3ERR_ROFS);
}

/// CREATE with a guard looks for the name first. Where there is none, it makes a
/// file of the name and with the attributes that were given; where there is one,
/// nothing is made and the client is told that the name exists.
pub proof fn lemma_guarded_create_makes_a_new_file(
    xid: u32,
    context: CallContext,
    dir: Seq<u8>,
    name: Seq<u8>,
    attributes: sattr3,
    rest: Seq<u8>,
    start: Step<CreateCall>,
    dirid: fileid3,
    before: fattr3,
    id: fileid3,
    made: fattr3,
    after: Result<fattr3, nfsstat3>,
    handle: nfs_fh3,
    stat: nfsstat3,
    absent: nfsstat3,
)
    requires
        dir.len() <= u32::MAX,
        name.len() <= u32::MAX,
        handle@.len() <= u32::MAX,
        CreateCall::starts(
            xid,
            xdr_opaque(dir) + (xdr_opaque(name) + (xdr_u32(1) + (
                sent_attributes(attributes) + rest))),
            start,
        ),
    ensures
        ({
            let r1 = run(leave());
            let r2 = r1.push(FsAnswer::Id(Ok(dirid)));
            let r3 = r2.push(FsAnswer::Attr(Ok(before)));
            let r4 = r3.push(FsAnswer::Id(Err(absent)));
            let r5 = r4.push(FsAnswer::Created(Ok((id, made))));
            let r6 = r5.push(FsAnswer::Attr(after));
            let r7 = r6.push(FsAnswer::Handle(handle));
            let q1 = one(Asked::Capabilities);
            let q2 = q1.push(Asked::File { handle: dir });
            let q3 = q2.push(Asked::Getattr { id: dirid });
            let q4 = q3.push(Asked::Lookup { dirid, name });
            let q5 = q4.push(Asked::Create { dirid, name, attr: attributes });
            let q6 = q5.push(Asked::Getattr { id: dirid });
            let q7 = q6.push(Asked::Handle { id });
            &&& start matches Step::Ask(p)
            &&& asked(p, context, xid, r7) == q7
            &&& told(p, xid, r7) matches Some(reply) && tells_made(
                reply,
                xid,
                handle@,
                post_op_attr::attributes(made),
                before_and_after(Some(before), after),
            )
            &&& asked(p, context, xid, run(no_leave())) == one(Asked::Capabilities)
            &&& told(p, xid, run(no_leave())) matches Some(reply)
                && tells_wcc(reply, xid, nfsstat3::NFS3ERR_ROFS, nothing_known())
            &&& asked(p, context, xid, r1.push(FsAnswer::Id(Err(stat))))
                == q1.push(Asked::File { handle: dir })
            &&& told(p, xid, r1.push(FsAnswer::Id(Err(stat)))) matches Some(reply)
                && tells_wcc(reply, xid, stat, nothing_known())
            &&& asked(p, context, xid, r2.push(FsAnswer::Attr(Err(stat))))
                == q2.push(Asked::Getattr { id: dirid })
            &&& told(p, xid, r2.push(FsAnswer::Attr(Err(stat)))) matches Some(reply)
                && tells_wcc(reply, xid, stat, nothing_known())
            &&& asked(p, context, xid, r3.push(FsAnswer::Id(Ok(id))).push(FsAnswer::Attr(after)))
                == q3.push(Asked::Lookup { dirid, name }).push(Asked::Getattr { id: dirid })
            &&& told(p, xid, r3.push(FsAnswer::Id(Ok(id))).push(
                FsAnswer::Attr(after))) matches Some(reply)
                && tells_wcc(
                reply,
                xid,
                nfsstat3::NFS3ERR_EXIST,
                before_and_after(Some(before), after),
            )
            &&& asked(p, context, xid, r4.push(FsAnswer::Created(Err(stat))).push(
                FsAnswer::Attr(after)))
                == q4.push(Asked::Create { dirid, name, attr: attributes }).push(
                    Asked::Getattr { id: dirid })
            &&& told(p, xid, r4.push(FsAnswer::Created(Err(stat))).push(
                FsAnswer::Attr(after))) matches Some(reply)
                && tells_wcc(
                reply,
                xid,
                stat,
                before_and_after(Some(before), after),
            )
        }),
{
    broadcast use group_runs;

    let s3 = sent_attributes(attributes) + rest;
    let s2 = xdr_u32(1) + s3;
    let s1 = xdr_opaque(name) + s2;
    opaque_round_trip(dir, s1);
    opaque_round_trip(name, s2);
    u32_round_trip(1, s3);
    attributes_are_received(attributes, rest);
    lemma_made_is_told(
        xid,
        handle@,
        post_op_attr::attributes(made),
        before_and_after(Some(before), after),
    );
    lemma_wcc_is_told(
        xid,
        stat,
        before_and_after(Some(before), after),
        Seq::empty(),
    );
    lemma_wcc_is_told(
        xid,
        nfsstat3::NFS3ERR_EXIST,
        before_and_after(Some(before), after),
        Seq::empty(),
    );
    lemma_loss_is_told(xid, stat);
    lemma_loss_is_told(xid, nfsstat3::NFS3ERR_ROFS);
}

/// Exclusive CREATE leaves it to the file system to make a file of the name that
/// was given only if there is none. It tells the handle of the new file, and of
/// the directory before and after.
pub proof fn lemma_exclusive_create_makes_the_file(
    xid: u32,
    context: CallContext,
    dir: Seq<u8>,
    name: Seq<u8>,
    rest: Seq<u8>,
    start: Step<CreateCall>,
    dirid: fileid3,
    before: fattr3,
    id: fileid3,
    after: Result<fattr3, nfsstat3>,
    handle: nfs_fh3,
    stat: nfsstat3,
)
    requires
        dir.len() <= u32::MAX,
        name.len() <= u32::MAX,
        handle@.len() <= u32::MAX,
        CreateCall::starts(
            xid,
            xdr_opaque(dir) + (xdr_opaque(name) + (xdr_u32(2) + rest)),
            start,
        ),
    ensures
        ({
            let r1 = run(leave());
            let r2 = r1.push(FsAnswer::Id(Ok(dirid)));
            let r3 = r2.push(FsAnswer::Attr(Ok(before)));
            let r4 = r3.push(FsAnswer::Id(Ok(id)));
            let r5 = r4.push(FsAnswer::Attr(after));
            let r6 = r5.push(FsAnswer::Handle(handle));
            let q1 = one(Asked::Capabilities);
            let q2 = q1.push(Asked::File { handle: dir });
            let q3 = q2.push(Asked::Getattr { id: dirid });
            let q4 = q3.push(Asked::CreateExclusive { dirid, name });
            let q5 = q4.push(Asked::Getattr { id: dirid });
            let q6 = q5.push(Asked::Handle { id });
            &&& start matches Step::Ask(p)
            &&& asked(p, context, xid, r6) == q6
            &&& told(p, xid, r6) matches Some(reply) && tells_made(
                reply,
                xid,
                handle@,
                post_op_attr::Void,
                before_and_after(Some(before), after),
            )
            &&& asked(p, context, xid, run(no_leave())) == one(Asked::Capabilities)
            &&& told(p, xid, run(no_leave())) matches Some(reply)
                && tells_wcc(reply, xid, nfsstat3::NFS3ERR_ROFS, nothing_known())
            &&& asked(p, context, xid, r1.push(FsAnswer::Id(Err(stat))))
                == q1.push(Asked::File { handle: dir })
            &&& told(p, xid, r1.push(FsAnswer::Id(Err(stat)))) matches Some(reply)
                && tells_wcc(reply, xid, stat, nothing_known())
            &&& asked(p, context, xid, r2.push(FsAnswer::Attr(Err(stat))))
                == q2.push(Asked::Getattr { id: dirid })
            &&& told(p, xid, r2.push(FsAnswer::Attr(Err(stat)))) matches Some(reply)
                && tells_wcc(reply, xid, stat, nothing_known())
            &&& asked(p, context, xid, r3.push(FsAnswer::Id(Err(stat))).push(FsAnswer::Attr(after)))
                == q3.push(Asked::CreateExclusive { dirid, name }).push(
                    Asked::Getattr { id: dirid })
            &&& told(p, xid, r3.push(FsAnswer::Id(Err(stat))).push(
                FsAnswer::Attr(after))) matches Some(reply)
                && tells_wcc(
                reply,
                xid,
                stat,
                before_and_after(Some(before), after),
            )
        }),
{
    broadcast use group_runs;

    let s2 = xdr_u32(2) + rest;
    let s1 = xdr_opaque(name) + s2;
    opaque_round_trip(dir, s1);
    opaque_round_trip(name, s2);
    u32_round_trip(2, rest);
    lemma_made_is_told(xid, handle@, post_op_attr::Void, before_and_after(Some(before), after));
    lemma_wcc_is_told(
        xid,
        stat,
        before_and_after(Some(before), after),
        Seq::empty(),
    );
    lemma_loss_is_told(xid, stat);
    lemma_loss_is_told(xid, nfsstat3::NFS3ERR_ROFS);
}

// ----------------------------------------------------------------------- MKDIR

/// MKDIR makes a directory of the name and with the attributes that were given,
/// in the directory that the handle stands for. It tells the handle and the
/// attributes of the new directory, and of the one above it before and after.
pub proof fn lemma_mkdir_makes_the_directory(
    xid: u32,
    context: CallContext,
    dir: Seq<u8>,
    name: Seq<u8>,
    attributes: sattr3,
    rest: Seq<u8>,
    start: Step<MkdirCall>,
    dirid: fileid3,
    before: fattr3,
    id: fileid3,
    made: fattr3,
    after: Result<fattr3, nfsstat3>,
    handle: nfs_fh3,
    stat: nfsstat3,
)
    requires
        dir.len() <= u32::MAX,
        name.len() <= u32::MAX,
        handle@.len() <= u32::MAX,
        MkdirCall::starts(
            xid,
            xdr_opaque(dir) + (xdr_opaque(name) + (sent_attributes(attributes) + rest)),
            start,
        ),
    ensures
        ({
            let r1 = run(leave());
            let r2 = r1.push(FsAnswer::Id(Ok(dirid)));
            let r3 = r2.push(FsAnswer::Attr(Ok(before)));
            let r4 = r3.push(FsAnswer::Created(Ok((id, made))));
            let r5 = r4.push(FsAnswer::Attr(after));
            let r6 = r5.push(FsAnswer::Handle(handle));
            let q1 = one(Asked::Capabilities);
            let q2 = q1.push(Asked::File { handle: dir });
            let q3 = q2.push(Asked::Getattr { id: dirid });
            let q4 = q3.push(Asked::Mkdir { dirid, name, attr: attributes });
            let q5 = q4.push(Asked::Getattr { id: dirid });
            let q6 = q5.push(Asked::Handle { id });
            &&& start matches Step::Ask(p)
            &&& asked(p, context, xid, r6) == q6
            &&& told(p, xid, r6) matches Some(reply) && tells_made(
                reply,
                xid,
                handle@,
                post_op_attr::attributes(made),
                before_and_after(Some(before), after),
            )
            &&& asked(p, context, xid, run(no_leave())) == one(Asked::Capabilities)
            &&& told(p, xid, run(no_leave())) matches Some(reply)
                && tells_wcc(reply, xid, nfsstat3::NFS3ERR_ROFS, nothing_known())
            &&& asked(p, context, xid, r1.push(FsAnswer::Id(Err(stat))))
                == q1.push(Asked::File { handle: dir })
            &&& told(p, xid, r1.push(FsAnswer::Id(Err(stat)))) matches Some(reply)
                && tells_wcc(reply, xid, stat, nothing_known())
            &&& asked(p, context, xid, r2.push(FsAnswer::Attr(Err(stat))))
                == q2.push(Asked::Getattr { id: dirid })
            &&& told(p, xid, r2.push(FsAnswer::Attr(Err(stat)))) matches Some(reply)
                && tells_wcc(reply, xid, stat, nothing_known())
            &&& asked(p, context, xid, r3.push(FsAnswer::Created(Err(stat))).push(
                FsAnswer::Attr(after)))
                == q3.push(Asked::Mkdir { dirid, name, attr: attributes }).push(
                    Asked::Getattr { id: dirid })
            &&& told(p, xid, r3.push(FsAnswer::Created(Err(stat))).push(
                FsAnswer::Attr(after))) matches Some(reply)
                && tells_wcc(
                reply,
                xid,
                stat,
                before_and_after(Some(before), after),
            )
        }),
{
    broadcast use group_runs;

    let s2 = sent_attributes(attributes) + rest;
    let s1 = xdr_opaque(name) + s2;
    opaque_round_trip(dir, s1);
    opaque_round_trip(name, s2);
    attributes_are_received(attributes, rest);
    lemma_made_is_told(
        xid,
        handle@,
        post_op_attr::attributes(made),
        before_and_after(Some(before), after),
    );
    lemma_wcc_is_told(
        xid,
        stat,
        before_and_after(Some(before), after),
        Seq::empty(),
    );
    lemma_loss_is_told(xid, stat);
    lemma_loss_is_told(xid, nfsstat3::NFS3ERR_ROFS);
}

// --------------------------------------------------------------------- SYMLINK

/// SYMLINK makes a link of the name that was given, to the path and with the
/// attributes that were given, in the directory that the handle stands for. It
/// tells the handle and the attributes of the new link, and of the directory
/// before and after.
pub proof fn lemma_symlink_makes_the_link(
    xid: u32,
    context: CallContext,
    dir: Seq<u8>,
    name: Seq<u8>,
    attributes: sattr3,
    target: Seq<u8>,
    rest: Seq<u8>,
    start: Step<SymlinkCall>,
    dirid: fileid3,
    before: fattr3,
    id: fileid3,
    made: fattr3,
    after: Result<fattr3, nfsstat3>,
    handle: nfs_fh3,
    stat: nfsstat3,
)
    requires
        dir.len() <= u32::MAX,
        name.len() <= u32::MAX,
        target.len() <= u32::MAX,
        handle@.len() <= u32::MAX,
        SymlinkCall::starts(
            xid,
            xdr_opaque(dir) + (xdr_opaque(name) + (sent_attributes(attributes) + (
                xdr_opaque(target) + rest))),
            start,
        ),
    ensures
        ({
            let r1 = run(leave());
            let r2 = r1.push(FsAnswer::Id(Ok(dirid)));
            let r3 = r2.push(FsAnswer::Attr(Ok(before)));
            let r4 = r3.push(FsAnswer::Created(Ok((id, made))));
            let r5 = r4.push(FsAnswer::Attr(after));
            let r6 = r5.push(FsAnswer::Handle(handle));
            let q1 = one(Asked::Capabilities);
            let q2 = q1.push(Asked::File { handle: dir });
            let q3 = q2.push(Asked::Getattr { id: dirid });
            let q4 = q3.push(Asked::Symlink { dirid, name, target, attr: attributes });
            let q5 = q4.push(Asked::Getattr { id: dirid });
            let q6 = q5.push(Asked::Handle { id });
            &&& start matches Step::Ask(p)
            &&& asked(p, context, xid, r6) == q6
            &&& told(p, xid, r6) matches Some(reply) && tells_made(
                reply,
                xid,
                handle@,
                post_op_attr::attributes(made),
                before_and_after(Some(before), after),
            )
            &&& asked(p, context, xid, run(no_leave())) == one(Asked::Capabilities)
            &&& told(p, xid, run(no_leave())) matches Some(reply)
                && tells_wcc(reply, xid, nfsstat3::NFS3ERR_ROFS, nothing_known())
            &&& asked(p, context, xid, r1.push(FsAnswer::Id(Err(stat))))
                == q1.push(Asked::File { handle: dir })
            &&& told(p, xid, r1.push(FsAnswer::Id(Err(stat)))) matches Some(reply)
                && tells_wcc(reply, xid, stat, nothing_known())
            &&& asked(p, context, xid, r2.push(FsAnswer::Attr(Err(stat))))
                == q2.push(Asked::Getattr { id: dirid })
            &&& told(p, xid, r2.push(FsAnswer::Attr(Err(stat)))) matches Some(reply)
                && tells_wcc(reply, xid, stat, nothing_known())
            &&& asked(p, context, xid, r3.push(FsAnswer::Created(Err(stat))).push(
                FsAnswer::Attr(after)))
                == q3.push(Asked::Symlink { dirid, name, target, attr: attributes }).push(
                    Asked::Getattr { id: dirid })
            &&& told(p, xid, r3.push(FsAnswer::Created(Err(stat))).push(
                FsAnswer::Attr(after))) matches Some(reply)
                && tells_wcc(
                reply,
                xid,
                stat,
                before_and_after(Some(before), after),
            )
        }),
{
    broadcast use group_runs;

    let s3 = xdr_opaque(target) + rest;
    let s2 = sent_attributes(attributes) + s3;
    let s1 = xdr_opaque(name) + s2;
    opaque_round_trip(dir, s1);
    opaque_round_trip(name, s2);
    attributes_are_received(attributes, s3);
    opaque_round_trip(target, rest);
    lemma_made_is_told(
        xid,
        handle@,
        post_op_attr::attributes(made),
        before_and_after(Some(before), after),
    );
    lemma_wcc_is_told(
        xid,
        stat,
        before_and_after(Some(before), after),
        Seq::empty(),
    );
    lemma_loss_is_told(xid, stat);
    lemma_loss_is_told(xid, nfsstat3::NFS3ERR_ROFS);
}

// ----------------------------------------------------------------------- MKNOD

/// MKNOD of a block or a character device makes a device of that type, of the
/// name, with the attributes and with the numbers that were given.
pub proof fn lemma_mknod_makes_the_device(
    xid: u32,
    context: CallContext,
    dir: Seq<u8>,
    name: Seq<u8>,
    number: u32,
    attributes: sattr3,
    major: u32,
    minor: u32,
    rest: Seq<u8>,
    start: Step<MknodCall>,
    ftype: ftype3,
    dirid: fileid3,
    attr: Result<fattr3, nfsstat3>,
    id: fileid3,
    made: fattr3,
    handle: nfs_fh3,
    after: Result<fattr3, nfsstat3>,
    stat: nfsstat3,
)
    requires
        dir.len() <= u32::MAX,
        name.len() <= u32::MAX,
        handle@.len() <= u32::MAX,
        type_of_number(number) == Some(ftype),
        ftype == ftype3::NF3BLK || ftype == ftype3::NF3CHR,
        MknodCall::starts(
            xid,
            xdr_opaque(dir) + (xdr_opaque(name) + (xdr_u32(number) + (
                sent_attributes(attributes) + (xdr_u32(major) + (xdr_u32(minor) + rest))))),
            start,
        ),
    ensures
        ({
            let r1 = run(FsAnswer::Id(Ok(dirid)));
            let r2 = r1.push(FsAnswer::Attr(attr));
            let r3 = r2.push(FsAnswer::Created(Ok((id, made))));
            let r4 = r3.push(FsAnswer::Handle(handle));
            let r5 = r4.push(FsAnswer::Attr(after));
            let q1 = one(Asked::File { handle: dir });
            let q2 = q1.push(Asked::Getattr { id: dirid });
            let q3 = q2.push(Asked::Mknod {
                    dirid,
                    name,
                    ftype,
                    attr: attributes,
                    spec: Some(specdata3 { specdata1: major, specdata2: minor }),
                });
            let q4 = q3.push(Asked::Handle { id });
            let q5 = q4.push(Asked::Getattr { id: dirid });
            &&& start matches Step::Ask(p)
            &&& asked(p, context, xid, r5) == q5
            &&& told(p, xid, r5) matches Some(reply) && tells_made(
                reply,
                xid,
                handle@,
                post_op_attr::attributes(made),
                before_and_after(found(attr), after),
            )
            &&& asked(p, context, xid, run(FsAnswer::Id(Err(stat))))
                == one(Asked::File { handle: dir })
            &&& told(p, xid, run(FsAnswer::Id(Err(stat)))) matches Some(reply)
                && tells_wcc(reply, xid, nfsstat3::NFS3ERR_STALE, nothing_known())
            &&& asked(p, context, xid, r2.push(FsAnswer::Created(Err(stat))).push(
                FsAnswer::Attr(after)))
                == q2.push(Asked::Mknod {
                    dirid,
                    name,
                    ftype,
                    attr: attributes,
                    spec: Some(specdata3 { specdata1: major, specdata2: minor }),
                }).push(Asked::Getattr { id: dirid })
            &&& told(p, xid, r2.push(FsAnswer::Created(Err(stat))).push(
                FsAnswer::Attr(after))) matches Some(reply)
                && tells_wcc(
                reply,
                xid,
                stat,
                before_and_after(found(attr), after),
            )
        }),
{
    broadcast use group_runs;

    let s5 = xdr_u32(minor) + rest;
    let s4 = xdr_u32(major) + s5;
    let s3 = sent_attributes(attributes) + s4;
    let s2 = xdr_u32(number) + s3;
    let s1 = xdr_opaque(name) + s2;
    opaque_round_trip(dir, s1);
    opaque_round_trip(name, s2);
    u32_round_trip(number, s3);
    attributes_are_received(attributes, s4);
    u32_round_trip(major, s5);
    u32_round_trip(minor, rest);
    lemma_numbers_are_known(stat, ftype, stable_how::UNSTABLE, number);
    lemma_made_is_told(
        xid,
        handle@,
        post_op_attr::attributes(made),
        before_and_after(found(attr), after),
    );
    lemma_wcc_is_told(
        xid,
        stat,
        before_and_after(found(attr), after),
        Seq::empty(),
    );
    lemma_loss_is_told(xid, nfsstat3::NFS3ERR_STALE);
}

/// MKNOD of a socket or a pipe makes one of that type, of the name and with the
/// attributes that were given.
pub proof fn lemma_mknod_makes_the_special_file(
    xid: u32,
    context: CallContext,
    dir: Seq<u8>,
    name: Seq<u8>,
    number: u32,
    attributes: sattr3,
    rest: Seq<u8>,
    start: Step<MknodCall>,
    ftype: ftype3,
    dirid: fileid3,
    attr: Result<fattr3, nfsstat3>,
    id: fileid3,
    made: fattr3,
    handle: nfs_fh3,
    after: Result<fattr3, nfsstat3>,
    stat: nfsstat3,
)
    requires
        dir.len() <= u32::MAX,
        name.len() <= u32::MAX,
        handle@.len() <= u32::MAX,
        type_of_number(number) == Some(ftype),
        ftype == ftype3::NF3SOCK || ftype == ftype3::NF3FIFO,
        MknodCall::starts(
            xid,
            xdr_opaque(dir) + (xdr_opaque(name) + (xdr_u32(number) + (
                sent_attributes(attributes) + rest))),
            start,
        ),
    ensures
        ({
            let r1 = run(FsAnswer::Id(Ok(dirid)));
            let r2 = r1.push(FsAnswer::Attr(attr));
            let r3 = r2.push(FsAnswer::Created(Ok((id, made))));
            let r4 = r3.push(FsAnswer::Handle(handle));
            let r5 = r4.push(FsAnswer::Attr(after));
            let q1 = one(Asked::File { handle: dir });
            let q2 = q1.push(Asked::Getattr { id: dirid });
            let q3 = q2.push(Asked::Mknod { dirid, name, ftype, attr: attributes, spec: None });
            let q4 = q3.push(Asked::Handle { id });
            let q5 = q4.push(Asked::Getattr { id: dirid });
            &&& start matches Step::Ask(p)
            &&& asked(p, context, xid, r5) == q5
            &&& told(p, xid, r5) matches Some(reply) && tells_made(
                reply,
                xid,
                handle@,
                post_op_attr::attributes(made),
                before_and_after(found(attr), after),
            )
            &&& asked(p, context, xid, run(FsAnswer::Id(Err(stat))))
                == one(Asked::File { handle: dir })
            &&& told(p, xid, run(FsAnswer::Id(Err(stat)))) matches Some(reply)
                && tells_wcc(reply, xid, nfsstat3::NFS3ERR_STALE, nothing_known())
            &&& asked(p, context, xid, r2.push(FsAnswer::Created(Err(stat))).push(
                FsAnswer::Attr(after)))
                == q2.push(
                    Asked::Mknod { dirid, name, ftype, attr: attributes, spec: None }).push(
                        Asked::Getattr { id: dirid })
            &&& told(p, xid, r2.push(FsAnswer::Created(Err(stat))).push(
                FsAnswer::Attr(after))) matches Some(reply)
                && tells_wcc(
                reply,
                xid,
                stat,
                before_and_after(found(attr), after),
            )
        }),
{
    broadcast use group_runs;

    let s3 = sent_attributes(attributes) + rest;
    let s2 = xdr_u32(number) + s3;
    let s1 = xdr_opaque(name) + s2;
    opaque_round_trip(dir, s1);
    opaque_round_trip(name, s2);
    u32_round_trip(number, s3);
    attributes_are_received(attributes, rest);
    lemma_numbers_are_known(stat, ftype, stable_how::UNSTABLE, number);
    lemma_made_is_told(
        xid,
        handle@,
        post_op_attr::attributes(made),
        before_and_after(found(attr), after),
    );
    lemma_wcc_is_told(
        xid,
        stat,
        before_and_after(found(attr), after),
        Seq::empty(),
    );
    lemma_loss_is_told(xid, nfsstat3::NFS3ERR_STALE);
}

/// MKNOD of a regular file, a directory or a link makes nothing, and the client
/// is told that the type is wrong.
pub proof fn lemma_mknod_refuses_other_types(
    xid: u32,
    context: CallContext,
    dir: Seq<u8>,
    name: Seq<u8>,
    number: u32,
    rest: Seq<u8>,
    start: Step<MknodCall>,
    ftype: ftype3,
    dirid: fileid3,
    attr: Result<fattr3, nfsstat3>,
    after: Result<fattr3, nfsstat3>,
)
    requires
        dir.len() <= u32::MAX,
        name.len() <= u32::MAX,
        type_of_number(number) == Some(ftype),
        ftype == ftype3::NF3REG || ftype == ftype3::NF3DIR || ftype == ftype3::NF3LNK,
        MknodCall::starts(
            xid,
            xdr_opaque(dir) + (xdr_opaque(name) + (xdr_u32(number) + rest)),
            start,
        ),
    ensures
        ({
            let r1 = run(FsAnswer::Id(Ok(dirid)));
            let r2 = r1.push(FsAnswer::Attr(attr));
            let r3 = r2.push(FsAnswer::Attr(after));
            let q1 = one(Asked::File { handle: dir });
            let q2 = q1.push(Asked::Getattr { id: dirid });
            let q3 = q2.push(Asked::Getattr { id: dirid });
            &&& start matches Step::Ask(p)
            &&& asked(p, context, xid, r3) == q3
            &&& told(p, xid, r3) matches Some(reply) && tells_wcc(
                reply,
                xid,
                nfsstat3::NFS3ERR_BADTYPE,
                before_and_after(found(attr), after),
            )
        }),
{
    broadcast use group_runs;

    let s2 = xdr_u32(number) + rest;
    let s1 = xdr_opaque(name) + s2;
    opaque_round_trip(dir, s1);
    opaque_round_trip(name, s2);
    u32_round_trip(number, rest);
    lemma_numbers_are_known(nfsstat3::NFS3_OK, ftype, stable_how::UNSTABLE, number);
    lemma_wcc_is_told(
        xid,
        nfsstat3::NFS3ERR_BADTYPE,
        before_and_after(found(attr), after),
        Seq::empty(),
    );
}

// --------------------------------------------------------------------- SETATTR

/// SETATTR without a guard, or whose guard is the time of the last change, asks
/// the file system once to set the attributes that were given, all of them, on
/// the object that the handle stands for. The client is told of the object before
/// and after.
pub proof fn lemma_setattr_sets_the_attributes(
    xid: u32,
    context: CallContext,
    handle: Seq<u8>,
    attributes: sattr3,
    guard: Option<nfstime3>,
    rest: Seq<u8>,
    start: Step<SetattrCall>,
    id: fileid3,
    before: fattr3,
    after: fattr3,
    stat: nfsstat3,
)
    requires
        handle.len() <= u32::MAX,
        guard matches Some(t) ==> t == before.ctime,
        SetattrCall::starts(
            xid,
            xdr_opaque(handle) + (sent_attributes(attributes) + (sent_guard(guard) + rest)),
            start,
        ),
    ensures
        ({
            let r1 = run(leave());
            let r2 = r1.push(FsAnswer::Id(Ok(id)));
            let r3 = r2.push(FsAnswer::Attr(Ok(before)));
            let r4 = r3.push(FsAnswer::Attr(Ok(after)));
            let q1 = one(Asked::Capabilities);
            let q2 = q1.push(Asked::File { handle });
            let q3 = q2.push(Asked::Getattr { id });
            let q4 = q3.push(Asked::Setattr { id, attr: attributes });
            &&& start matches Step::Ask(p)
            &&& asked(p, context, xid, r4) == q4
            &&& told(p, xid, r4) matches Some(reply) && tells_wcc(
                reply,
                xid,
                nfsstat3::NFS3_OK,
                before_and_after(Some(before), Ok(after)),
            )
            &&& asked(p, context, xid, run(no_leave())) == one(Asked::Capabilities)
            &&& told(p, xid, run(no_leave())) matches Some(reply)
                && tells_wcc(reply, xid, nfsstat3::NFS3ERR_ROFS, nothing_known())
            &&& asked(p, context, xid, r1.push(FsAnswer::Id(Err(stat))))
                == q1.push(Asked::File { handle })
            &&& told(p, xid, r1.push(FsAnswer::Id(Err(stat)))) matches Some(reply)
                && tells_wcc(reply, xid, stat, nothing_known())
            &&& asked(p, context, xid, r2.push(FsAnswer::Attr(Err(stat))))
                == q2.push(Asked::Getattr { id })
            &&& told(p, xid, r2.push(FsAnswer::Attr(Err(stat)))) matches Some(reply)
                && tells_wcc(reply, xid, stat, nothing_known())
            &&& asked(p, context, xid, r3.push(FsAnswer::Attr(Err(stat))))
                == q3.push(Asked::Setattr { id, attr: attributes })
            &&& told(p, xid, r3.push(FsAnswer::Attr(Err(stat)))) matches Some(reply)
                && tells_wcc(reply, xid, stat, nothing_known())
        }),
{
    broadcast use group_runs;

    let s2 = sent_guard(guard) + rest;
    let s1 = sent_attributes(attributes) + s2;
    opaque_round_trip(handle, s1);
    attributes_are_received(attributes, s2);
    guard_is_received(guard, rest);
    lemma_wcc_is_told(
        xid,
        nfsstat3::NFS3_OK,
        before_and_after(Some(before), Ok(after)),
        Seq::empty(),
    );
    lemma_loss_is_told(xid, stat);
    lemma_loss_is_told(xid, nfsstat3::NFS3ERR_ROFS);
}

/// SETATTR whose guard is another time than that of the last change sets nothing,
/// and the client is told so.
pub proof fn lemma_setattr_minds_the_guard(
    xid: u32,
    context: CallContext,
    handle: Seq<u8>,
    attributes: sattr3,
    guard: Option<nfstime3>,
    rest: Seq<u8>,
    start: Step<SetattrCall>,
    id: fileid3,
    before: fattr3,
)
    requires
        handle.len() <= u32::MAX,
        guard matches Some(t) && t != before.ctime,
        SetattrCall::starts(
            xid,
            xdr_opaque(handle) + (sent_attributes(attributes) + (sent_guard(guard) + rest)),
            start,
        ),
    ensures
        ({
            let r1 = run(leave());
            let r2 = r1.push(FsAnswer::Id(Ok(id)));
            let r3 = r2.push(FsAnswer::Attr(Ok(before)));
            let q1 = one(Asked::Capabilities);
            let q2 = q1.push(Asked::File { handle });
            let q3 = q2.push(Asked::Getattr { id });
            &&& start matches Step::Ask(p)
            &&& asked(p, context, xid, r3) == q3
            &&& told(p, xid, r3) matches Some(reply)
                && tells_wcc(reply, xid, nfsstat3::NFS3ERR_NOT_SYNC, nothing_known())
        }),
{
    broadcast use group_runs;

    let s2 = sent_guard(guard) + rest;
    let s1 = sent_attributes(attributes) + s2;
    opaque_round_trip(handle, s1);
    attributes_are_received(attributes, s2);
    guard_is_received(guard, rest);
    lemma_loss_is_told(xid, nfsstat3::NFS3ERR_NOT_SYNC);
}

// ---------------------------------------------------------------------- REMOVE

/// REMOVE and RMDIR remove the name that was given from the directory that the
/// handle stands for, and tell what came of it, and of the directory before and
/// after.
pub proof fn lemma_remove_removes_the_name(
    xid: u32,
    context: CallContext,
    dir: Seq<u8>,
    name: Seq<u8>,
    rest: Seq<u8>,
    start: Step<RemoveCall>,
    dirid: fileid3,
    before: fattr3,
    done: Result<(), nfsstat3>,
    after: Result<fattr3, nfsstat3>,
    stat: nfsstat3,
)
    requires
        dir.len() <= u32::MAX,
        name.len() <= u32::MAX,
        RemoveCall::starts(
            xid,
            xdr_opaque(dir) + (xdr_opaque(name) + rest),
            start,
        ),
    ensures
        ({
            let r1 = run(leave());
            let r2 = r1.push(FsAnswer::Id(Ok(dirid)));
            let r3 = r2.push(FsAnswer::Attr(Ok(before)));
            let r4 = r3.push(FsAnswer::Done(done));
            let r5 = r4.push(FsAnswer::Attr(after));
            let q1 = one(Asked::Capabilities);
            let q2 = q1.push(Asked::File { handle: dir });
            let q3 = q2.push(Asked::Getattr { id: dirid });
            let q4 = q3.push(Asked::Remove { dirid, name });
            let q5 = q4.push(Asked::Getattr { id: dirid });
            &&& start matches Step::Ask(p)
            &&& asked(p, context, xid, r5) == q5
            &&& told(p, xid, r5) matches Some(reply) && tells_wcc(
                reply,
                xid,
                status_after(done),
                before_and_after(Some(before), after),
            )
            &&& asked(p, context, xid, run(no_leave())) == one(Asked::Capabilities)
            &&& told(p, xid, run(no_leave())) matches Some(reply)
                && tells_wcc(reply, xid, nfsstat3::NFS3ERR_ROFS, nothing_known())
            &&& asked(p, context, xid, r1.push(FsAnswer::Id(Err(stat))))
                == q1.push(Asked::File { handle: dir })
            &&& told(p, xid, r1.push(FsAnswer::Id(Err(stat)))) matches Some(reply)
                && tells_wcc(reply, xid, stat, nothing_known())
            &&& asked(p, context, xid, r2.push(FsAnswer::Attr(Err(stat))))
                == q2.push(Asked::Getattr { id: dirid })
            &&& told(p, xid, r2.push(FsAnswer::Attr(Err(stat)))) matches Some(reply)
                && tells_wcc(reply, xid, stat, nothing_known())
        }),
{
    broadcast use group_runs;

    let s1 = xdr_opaque(name) + rest;
    opaque_round_trip(dir, s1);
    opaque_round_trip(name, rest);
    lemma_wcc_is_told(
        xid,
        status_after(done),
        before_and_after(Some(before), after),
        Seq::empty(),
    );
    lemma_loss_is_told(xid, stat);
    lemma_loss_is_told(xid, nfsstat3::NFS3ERR_ROFS);
}

// ---------------------------------------------------------------------- RENAME

/// RENAME moves the name that was given first, in the directory of the first
/// handle, to the name that was given second, in the directory of the second, and
/// nothing else; also within one directory. The client is told what came of it,
/// and of both directories before and after.
pub proof fn lemma_rename_moves_the_name(
    xid: u32,
    context: CallContext,
    from_dir: Seq<u8>,
    from_name: Seq<u8>,
    to_dir: Seq<u8>,
    to_name: Seq<u8>,
    rest: Seq<u8>,
    start: Step<RenameCall>,
    f: fileid3,
    t: fileid3,
    from_before: fattr3,
    to_before: fattr3,
    done: Result<(), nfsstat3>,
    from_after: Result<fattr3, nfsstat3>,
    to_after: Result<fattr3, nfsstat3>,
)
    requires
        from_dir.len() <= u32::MAX,
        from_name.len() <= u32::MAX,
        to_dir.len() <= u32::MAX,
        to_name.len() <= u32::MAX,
        RenameCall::starts(
            xid,
            xdr_opaque(from_dir) + (xdr_opaque(from_name) + (xdr_opaque(to_dir) + (
                xdr_opaque(to_name) + rest))),
            start,
        ),
    ensures
        ({
            let r1 = run(leave());
            let r2 = r1.push(FsAnswer::Id(Ok(f)));
            let r3 = r2.push(FsAnswer::Id(Ok(t)));
            let r4 = r3.push(FsAnswer::Attr(Ok(from_before)));
            let r5 = r4.push(FsAnswer::Attr(Ok(to_before)));
            let r6 = r5.push(FsAnswer::Done(done));
            let r7 = r6.push(FsAnswer::Attr(from_after));
            let r8 = r7.push(FsAnswer::Attr(to_after));
            let q1 = one(Asked::Capabilities);
            let q2 = q1.push(Asked::File { handle: from_dir });
            let q3 = q2.push(Asked::File { handle: to_dir });
            let q4 = q3.push(Asked::Getattr { id: f });
            let q5 = q4.push(Asked::Getattr { id: t });
            let q6 = q5.push(Asked::Rename { from_dirid: f, from_name, to_dirid: t, to_name });
            let q7 = q6.push(Asked::Getattr { id: f });
            let q8 = q7.push(Asked::Getattr { id: t });
            &&& start matches Step::Ask(p)
            &&& asked(p, context, xid, r8) == q8
            &&& told(p, xid, r8) matches Some(reply) && tells_two(
                reply,
                xid,
                status_after(done),
                before_and_after(Some(from_before), from_after),
                before_and_after(Some(to_before), to_after),
            )
        }),
{
    broadcast use group_runs;

    let s3 = xdr_opaque(to_name) + rest;
    let s2 = xdr_opaque(to_dir) + s3;
    let s1 = xdr_opaque(from_name) + s2;
    opaque_round_trip(from_dir, s1);
    opaque_round_trip(from_name, s2);
    opaque_round_trip(to_dir, s3);
    opaque_round_trip(to_name, rest);
    lemma_two_are_told(
        xid,
        status_after(done),
        before_and_after(Some(from_before), from_after),
        before_and_after(Some(to_before), to_after),
    );
}

/// RENAME that fails before anything is moved moves nothing, and tells why, with
/// nothing known of either directory.
pub proof fn lemma_rename_fails_early(
    xid: u32,
    context: CallContext,
    from_dir: Seq<u8>,
    from_name: Seq<u8>,
    to_dir: Seq<u8>,
    to_name: Seq<u8>,
    rest: Seq<u8>,
    start: Step<RenameCall>,
    f: fileid3,
    t: fileid3,
    from_before: fattr3,
    stat: nfsstat3,
)
    requires
        from_dir.len() <= u32::MAX,
        from_name.len() <= u32::MAX,
        to_dir.len() <= u32::MAX,
        to_name.len() <= u32::MAX,
        RenameCall::starts(
            xid,
            xdr_opaque(from_dir) + (xdr_opaque(from_name) + (xdr_opaque(to_dir) + (
                xdr_opaque(to_name) + rest))),
            start,
        ),
    ensures
        ({
            let r1 = run(leave());
            let r2 = r1.push(FsAnswer::Id(Ok(f)));
            let r3 = r2.push(FsAnswer::Id(Ok(t)));
            let r4 = r3.push(FsAnswer::Attr(Ok(from_before)));
            let r5 = r4.push(FsAnswer::Attr(Err(stat)));
            let q1 = one(Asked::Capabilities);
            let q2 = q1.push(Asked::File { handle: from_dir });
            let q3 = q2.push(Asked::File { handle: to_dir });
            let q4 = q3.push(Asked::Getattr { id: f });
            let q5 = q4.push(Asked::Getattr { id: t });
            &&& start matches Step::Ask(p)
            &&& asked(p, context, xid, r5) == q5
            &&& told(p, xid, r5) matches Some(reply) && tells_two(
                reply,
                xid,
                stat,
                nothing_known(),
                nothing_known(),
            )
            &&& asked(p, context, xid, run(no_leave())) == one(Asked::Capabilities)
            &&& told(p, xid, run(no_leave())) matches Some(reply) && tells_two(
                reply,
                xid,
                nfsstat3::NFS3ERR_ROFS,
                nothing_known(),
                nothing_known(),
            )
            &&& asked(p, context, xid, r1.push(FsAnswer::Id(Err(stat))))
                == q1.push(Asked::File { handle: from_dir })
            &&& told(p, xid, r1.push(FsAnswer::Id(Err(stat)))) matches Some(reply) && tells_two(
                reply,
                xid,
                stat,
                nothing_known(),
                nothing_known(),
            )
            &&& asked(p, context, xid, r2.push(FsAnswer::Id(Err(stat))))
                == q2.push(Asked::File { handle: to_dir })
            &&& told(p, xid, r2.push(FsAnswer::Id(Err(stat)))) matches Some(reply) && tells_two(
                reply,
                xid,
                stat,
                nothing_known(),
                nothing_known(),
            )
            &&& asked(p, context, xid, r3.push(FsAnswer::Attr(Err(stat))))
                == q3.push(Asked::Getattr { id: f })
            &&& told(p, xid, r3.push(FsAnswer::Attr(Err(stat)))) matches Some(reply) && tells_two(
                reply,
                xid,
                stat,
                nothing_known(),
                nothing_known(),
            )
        }),
{
    broadcast use group_runs;

    let s3 = xdr_opaque(to_name) + rest;
    let s2 = xdr_opaque(to_dir) + s3;
    let s1 = xdr_opaque(from_name) + s2;
    opaque_round_trip(from_dir, s1);
    opaque_round_trip(from_name, s2);
    opaque_round_trip(to_dir, s3);
    opaque_round_trip(to_name, rest);
    lemma_two_are_told(xid, stat, nothing_known(), nothing_known());
    lemma_two_are_told(xid, nfsstat3::NFS3ERR_ROFS, nothing_known(), nothing_known());
}

// ------------------------------------------------------------------------ LINK

/// LINK gives the file of the first handle the name that was given, in the
/// directory of the second. It tells the attributes of the file, after the link
/// or as it was where that failed, and of the directory before and after.
pub proof fn lemma_link_links_the_file(
    xid: u32,
    context: CallContext,
    handle: Seq<u8>,
    dir: Seq<u8>,
    name: Seq<u8>,
    rest: Seq<u8>,
    start: Step<LinkCall>,
    id: fileid3,
    dirid: fileid3,
    file: Result<fattr3, nfsstat3>,
    before: Result<fattr3, nfsstat3>,
    file_after: Result<fattr3, nfsstat3>,
    after: Result<fattr3, nfsstat3>,
    stat: nfsstat3,
)
    requires
        handle.len() <= u32::MAX,
        dir.len() <= u32::MAX,
        name.len() <= u32::MAX,
        LinkCall::starts(
            xid,
            xdr_opaque(handle) + (xdr_opaque(dir) + (xdr_opaque(name) + rest)),
            start,
        ),
    ensures
        ({
            let r1 = run(FsAnswer::Id(Ok(id)));
            let r2 = r1.push(FsAnswer::Id(Ok(dirid)));
            let r3 = r2.push(FsAnswer::Attr(file));
            let r4 = r3.push(FsAnswer::Attr(before));
            let r5 = r4.push(FsAnswer::Done(Ok(())));
            let r6 = r5.push(FsAnswer::Attr(file_after));
            let r7 = r6.push(FsAnswer::Attr(after));
            let q1 = one(Asked::File { handle });
            let q2 = q1.push(Asked::File { handle: dir });
            let q3 = q2.push(Asked::Getattr { id });
            let q4 = q3.push(Asked::Getattr { id: dirid });
            let q5 = q4.push(Asked::Link { id, dirid, name });
            let q6 = q5.push(Asked::Getattr { id });
            let q7 = q6.push(Asked::Getattr { id: dirid });
            &&& start matches Step::Ask(p)
            &&& asked(p, context, xid, r7) == q7
            &&& told(p, xid, r7) matches Some(reply) && tells_link(
                reply,
                xid,
                nfsstat3::NFS3_OK,
                known(file_after),
                before_and_after(found(before), after),
            )
            &&& asked(p, context, xid, r4.push(FsAnswer::Done(Err(stat))).push(
                FsAnswer::Attr(after)))
                == q4.push(Asked::Link { id, dirid, name }).push(Asked::Getattr { id: dirid })
            &&& told(p, xid, r4.push(FsAnswer::Done(Err(stat))).push(
                FsAnswer::Attr(after))) matches Some(reply)
                && tells_link(
                reply,
                xid,
                stat,
                known(file),
                before_and_after(found(before), after),
            )
            &&& asked(p, context, xid, run(FsAnswer::Id(Err(stat)))) == one(Asked::File { handle })
            &&& told(p, xid, run(FsAnswer::Id(Err(stat)))) matches Some(reply) && tells_link(
                reply,
                xid,
                nfsstat3::NFS3ERR_STALE,
                post_op_attr::Void,
                nothing_known(),
            )
            &&& asked(p, context, xid, r1.push(FsAnswer::Id(Err(stat))))
                == q1.push(Asked::File { handle: dir })
            &&& told(p, xid, r1.push(FsAnswer::Id(Err(stat)))) matches Some(reply) && tells_link(
                reply,
                xid,
                nfsstat3::NFS3ERR_STALE,
                post_op_attr::Void,
                nothing_known(),
            )
        }),
{
    broadcast use group_runs;

    let s2 = xdr_opaque(name) + rest;
    let s1 = xdr_opaque(dir) + s2;
    opaque_round_trip(handle, s1);
    opaque_round_trip(dir, s2);
    opaque_round_trip(name, rest);
    lemma_link_is_told(
        xid,
        nfsstat3::NFS3_OK,
        known(file_after),
        before_and_after(found(before), after),
    );
    lemma_link_is_told(
        xid,
        stat,
        known(file),
        before_and_after(found(before), after),
    );
    lemma_link_is_told(xid, nfsstat3::NFS3ERR_STALE, post_op_attr::Void, nothing_known());
}

// ---------------------------------------------------------------------- FSINFO

/// FSINFO asks for the information about the file system of the object that the
/// handle stands for, and tells all of it.
pub proof fn lemma_fsinfo_tells_the_information(
    xid: u32,
    context: CallContext,
    handle: Seq<u8>,
    rest: Seq<u8>,
    start: Step<FsinfoCall>,
    id: fileid3,
    info: fsinfo3,
    stat: nfsstat3,
)
    requires
        handle.len() <= u32::MAX,
        FsinfoCall::starts(
            xid,
            xdr_opaque(handle) + rest,
            start,
        ),
    ensures
        ({
            let r1 = run(FsAnswer::Id(Ok(id)));
            let r2 = r1.push(FsAnswer::Fsinfo(Ok(info)));
            let q1 = one(Asked::File { handle });
            let q2 = q1.push(Asked::Fsinfo { id });
            &&& start matches Step::Ask(p)
            &&& asked(p, context, xid, r2) == q2
            &&& told(p, xid, r2) matches Some(reply) && tells_fsinfo(reply, xid, info)
            &&& asked(p, context, xid, run(FsAnswer::Id(Err(stat)))) == one(Asked::File { handle })
            &&& told(p, xid, run(FsAnswer::Id(Err(stat)))) matches Some(reply)
                && tells_attr(reply, xid, stat, post_op_attr::Void)
            &&& asked(p, context, xid, r1.push(FsAnswer::Fsinfo(Err(stat))))
                == q1.push(Asked::Fsinfo { id })
            &&& told(p, xid, r1.push(FsAnswer::Fsinfo(Err(stat)))) matches Some(reply)
                && tells_attr(reply, xid, stat, post_op_attr::Void)
        }),
{
    broadcast use group_runs;

    opaque_round_trip(handle, rest);
    lemma_fsinfo_is_told(xid, info);
    lemma_attr_is_told(xid, stat, post_op_attr::Void, Seq::empty());
}

// ---------------------------------------------------------------------- FSSTAT

/// FSSTAT asks for the statistics of the file system of the object that the
/// handle stands for, and tells all of them. Where that fails, the attributes of
/// the object are asked for and told.
pub proof fn lemma_fsstat_tells_the_statistics(
    xid: u32,
    context: CallContext,
    handle: Seq<u8>,
    rest: Seq<u8>,
    start: Step<FsstatCall>,
    id: fileid3,
    res: fsstat3,
    attr: Result<fattr3, nfsstat3>,
    stat: nfsstat3,
)
    requires
        handle.len() <= u32::MAX,
        FsstatCall::starts(
            xid,
            xdr_opaque(handle) + rest,
            start,
        ),
    ensures
        ({
            let r1 = run(FsAnswer::Id(Ok(id)));
            let r2 = r1.push(FsAnswer::Fsstat(Ok(res)));
            let q1 = one(Asked::File { handle });
            let q2 = q1.push(Asked::Fsstat { id });
            &&& start matches Step::Ask(p)
            &&& asked(p, context, xid, r2) == q2
            &&& told(p, xid, r2) matches Some(reply) && tells_fsstat(reply, xid, res)
            &&& asked(p, context, xid, run(FsAnswer::Id(Err(stat)))) == one(Asked::File { handle })
            &&& told(p, xid, run(FsAnswer::Id(Err(stat)))) matches Some(reply)
                && tells_attr(reply, xid, stat, post_op_attr::Void)
            &&& asked(p, context, xid, r1.push(FsAnswer::Fsstat(Err(stat))).push(
                FsAnswer::Attr(attr)))
                == q1.push(Asked::Fsstat { id }).push(Asked::Getattr { id })
            &&& told(p, xid, r1.push(FsAnswer::Fsstat(Err(stat))).push(
                FsAnswer::Attr(attr))) matches Some(reply)
                && tells_attr(reply, xid, stat, known(attr))
        }),
{
    broadcast use group_runs;

    opaque_round_trip(handle, rest);
    lemma_fsstat_is_told(xid, res);
    lemma_attr_is_told(xid, stat, post_op_attr::Void, Seq::empty());
    lemma_attr_is_told(xid, stat, known(attr), Seq::empty());
}

// -------------------------------------------------------------------- PATHCONF

/// PATHCONF tells the attributes of the object that the handle stands for, and
/// what names it can have.
pub proof fn lemma_pathconf_tells_the_limits(
    xid: u32,
    context: CallContext,
    handle: Seq<u8>,
    rest: Seq<u8>,
    start: Step<PathconfCall>,
    id: fileid3,
    attr: Result<fattr3, nfsstat3>,
    stat: nfsstat3,
)
    requires
        handle.len() <= u32::MAX,
        PathconfCall::starts(
            xid,
            xdr_opaque(handle) + rest,
            start,
        ),
    ensures
        ({
            let r1 = run(FsAnswer::Id(Ok(id)));
            let r2 = r1.push(FsAnswer::Attr(attr));
            let q1 = one(Asked::File { handle });
            let q2 = q1.push(Asked::Getattr { id });
            &&& start matches Step::Ask(p)
            &&& asked(p, context, xid, r2) == q2
            &&& told(p, xid, r2) matches Some(reply) && tells_pathconf(
                reply,
                xid,
                known(attr),
                0,
                32768,
                1,
                1,
                0,
                1,
            )
            &&& asked(p, context, xid, run(FsAnswer::Id(Err(stat)))) == one(Asked::File { handle })
            &&& told(p, xid, run(FsAnswer::Id(Err(stat)))) matches Some(reply)
                && tells_attr(reply, xid, stat, post_op_attr::Void)
        }),
{
    broadcast use group_runs;

    opaque_round_trip(handle, rest);
    lemma_pathconf_is_told(xid, known(attr));
    lemma_attr_is_told(xid, stat, post_op_attr::Void, Seq::empty());
}

// ------------------------------------------------------- unreadable arguments

/// A procedure that only asks for leave before it looks at its arguments, and ends
/// there if they cannot be read: nothing else is asked, and there is no reply. Where
/// there is no leave, that is what is told.
pub open spec fn ends_unread<P: Procedure>(
    xid: u32,
    context: CallContext,
    start: Step<P>,
    refused: spec_fn(Seq<u8>) -> bool,
) -> bool {
    &&& start matches Step::Ask(p)
    &&& asked(p, context, xid, run(leave())) == one(Asked::Capabilities)
    &&& stands(p, xid, run(leave())) is Fail
    &&& told(p, xid, run(no_leave())) matches Some(reply)
        && refused(reply)
}

/// A call whose arguments cannot be read is not carried out: one that only looks
/// asks nothing of the file system, and neither has a reply.
pub proof fn lemma_unreadable_looks_ask_nothing(
    xid: u32,
    s: Seq<u8>,
    getattr: Step<GetattrCall>,
    lookup: Step<LookupCall>,
    access: Step<AccessCall>,
    readlink: Step<ReadlinkCall>,
    read: Step<ReadCall>,
    commit: Step<CommitCall>,
    mknod: Step<MknodCall>,
    link: Step<LinkCall>,
    readdir: Step<ReaddirCall>,
    fsinfo: Step<FsinfoCall>,
    fsstat: Step<FsstatCall>,
    pathconf: Step<PathconfCall>,
)
    requires
        GetattrCall::starts(xid, s, getattr),
        LookupCall::starts(xid, s, lookup),
        AccessCall::starts(xid, s, access),
        ReadlinkCall::starts(xid, s, readlink),
        ReadCall::starts(xid, s, read),
        CommitCall::starts(xid, s, commit),
        MknodCall::starts(xid, s, mknod),
        LinkCall::starts(xid, s, link),
        ReaddirCall::starts(xid, s, readdir),
        FsinfoCall::starts(xid, s, fsinfo),
        FsstatCall::starts(xid, s, fsstat),
        PathconfCall::starts(xid, s, pathconf),
    ensures
        parse_opaque(s) is Err ==> getattr is Fail,
        parse_diropargs3(s) is Err ==> lookup is Fail,
        parse_opaque(s) is Err || s.len() < 8 ==> access is Fail,
        parse_opaque(s) is Err ==> readlink is Fail,
        parse_READ3args(s) is Err ==> read is Fail,
        parse_COMMIT3args(s) is Err ==> commit is Fail,
        parse_MKNOD3args(s) is Err ==> mknod is Fail,
        parse_LINK3args(s) is Err ==> link is Fail,
        parse_READDIR3args(s) is Err ==> readdir is Fail,
        parse_opaque(s) is Err ==> fsinfo is Fail,
        parse_opaque(s) is Err ==> fsstat is Fail,
        parse_opaque(s) is Err ==> pathconf is Fail,
{
}

/// A call that would change the file system and whose arguments cannot be read asks
/// for leave only, and ends there.
pub proof fn lemma_unreadable_changes_ask_for_leave_only(
    xid: u32,
    context: CallContext,
    s: Seq<u8>,
    setattr: Step<SetattrCall>,
    write: Step<WriteCall>,
    create: Step<CreateCall>,
    mkdir: Step<MkdirCall>,
    symlink: Step<SymlinkCall>,
    remove: Step<RemoveCall>,
    rename: Step<RenameCall>,
)
    requires
        SetattrCall::starts(xid, s, setattr),
        WriteCall::starts(xid, s, write),
        CreateCall::starts(xid, s, create),
        MkdirCall::starts(xid, s, mkdir),
        SymlinkCall::starts(xid, s, symlink),
        RemoveCall::starts(xid, s, remove),
        RenameCall::starts(xid, s, rename),
    ensures
        ({
            let lost = |reply: Seq<u8>|
                tells_wcc(reply, xid, nfsstat3::NFS3ERR_ROFS, nothing_known());
            let both_lost = |reply: Seq<u8>|
                tells_two(
                    reply,
                    xid,
                    nfsstat3::NFS3ERR_ROFS,
                    nothing_known(),
                    nothing_known(),
                );
            &&& parse_SETATTR3args(s) is Err ==> ends_unread(xid, context, setattr, lost)
            &&& parse_WRITE3args(s) is Err ==> ends_unread(xid, context, write, lost)
            &&& parse_CREATE3args(s) is Err ==> ends_unread(xid, context, create, lost)
            &&& parse_MKDIR3args(s) is Err ==> ends_unread(xid, context, mkdir, lost)
            &&& parse_SYMLINK3args(s) is Err ==> ends_unread(xid, context, symlink, lost)
            &&& parse_diropargs3(s) is Err ==> ends_unread(xid, context, remove, lost)
            &&& parse_RENAME3args(s) is Err ==> ends_unread(xid, context, rename, both_lost)
        }),
{
    broadcast use group_runs;

    lemma_loss_is_told(xid, nfsstat3::NFS3ERR_ROFS);
    lemma_two_are_told(xid, nfsstat3::NFS3ERR_ROFS, nothing_known(), nothing_known());
}

/// CREATE whose attributes cannot be read makes nothing and has no reply.
pub proof fn lemma_unreadable_attributes_make_nothing(
    xid: u32,
    context: CallContext,
    dir: Seq<u8>,
    name: Seq<u8>,
    mode: u32,
    rest: Seq<u8>,
    start: Step<CreateCall>,
    dirid: fileid3,
    before: fattr3,
)
    requires
        dir.len() <= u32::MAX,
        name.len() <= u32::MAX,
        mode < 2,
        parse_sattr3(rest) is Err,
        CreateCall::starts(
            xid,
            xdr_opaque(dir) + (xdr_opaque(name) + (xdr_u32(mode) + rest)),
            start,
        ),
    ensures
        ({
            let r3 = run(leave()).push(FsAnswer::Id(Ok(dirid))).push(FsAnswer::Attr(Ok(before)));
            &&& start matches Step::Ask(p)
            &&& asked(p, context, xid, r3) == one(Asked::Capabilities).push(
                Asked::File { handle: dir },
            ).push(Asked::Getattr { id: dirid })
            &&& stands(p, xid, r3) is Fail
        }),
{
    broadcast use group_runs;

    let s2 = xdr_u32(mode) + rest;
    let s1 = xdr_opaque(name) + s2;
    opaque_round_trip(dir, s1);
    opaque_round_trip(name, s2);
    u32_round_trip(mode, rest);
}

} // verus!
