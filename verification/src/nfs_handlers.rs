//! The procedures of NFS version 3.
//!
//! A procedure is a machine. It asks one thing at a time of the file system and
//! is resumed with the answer, until it has a reply. For each machine, `asks`
//! says what it asks in a state and `next` what an answer leads to. A state is
//! named after the answer that it waits for.
use crate::nfs::{nfs_fh3, nfsstat3, post_op_attr, post_op_fh3, present_handle, wcc_data};
use crate::rpc::{lemma_reply_carries_its_transaction, make_success_reply, success_reply};
use crate::xdr::{parse_u32, u32_round_trip, XdrError};
use vstd::prelude::*;

pub mod change;
pub mod create;
pub mod dispatch;
pub mod exchange;
pub mod fs;
pub mod inspect;
pub mod listings;
pub mod readdir;
pub mod readdirplus;
pub mod runs;
pub mod write;

pub use crate::nfs_args::{createmode3, sattrguard3};
pub use self::change::{nfsproc3_link, nfsproc3_remove, nfsproc3_rename, nfsproc3_setattr};
pub use self::create::{nfsproc3_create, nfsproc3_mkdir, nfsproc3_mknod, nfsproc3_symlink};
pub use self::dispatch::{handle_nfs, NfsCall};
pub use self::fs::{nfsproc3_fsinfo, nfsproc3_fsstat, nfsproc3_pathconf};
pub use self::inspect::{
    nfsproc3_access, nfsproc3_getattr, nfsproc3_lookup, nfsproc3_read, nfsproc3_readlink,
};
pub use self::readdir::nfsproc3_readdir;
pub use self::readdirplus::nfsproc3_readdirplus;
pub use self::write::{nfsproc3_commit, nfsproc3_write};

verus! {

/// What a procedure does next.
pub enum Step<S> {
    /// The reply, complete.
    Reply(Vec<u8>),
    /// Ask the file system, and resume with its answer.
    Ask(S),
    /// The arguments could not be decoded; there is no reply.
    Fail(XdrError),
    /// The answer was not of the kind that was asked for.
    Unexpected,
}

/// A step, with the reply as a sequence.
pub enum Outcome<S> {
    Reply(Seq<u8>),
    Ask(S),
    Fail(XdrError),
    Unexpected,
}

impl<S> View for Step<S> {
    type V = Outcome<S>;

    open spec fn view(&self) -> Outcome<S> {
        match *self {
            Step::Reply(bytes) => Outcome::Reply(bytes@),
            Step::Ask(s) => Outcome::Ask(s),
            Step::Fail(e) => Outcome::Fail(e),
            Step::Unexpected => Outcome::Unexpected,
        }
    }
}

// ------------------------------------------------------------------ replies

/// A reply that is a status alone.
pub open spec fn stat_reply(xid: u32, stat: nfsstat3) -> Seq<u8> {
    success_reply(xid) + stat.encoding()
}

/// A reply of a status and the attributes of the object.
pub open spec fn attr_reply(xid: u32, stat: nfsstat3, attr: post_op_attr) -> Seq<u8> {
    stat_reply(xid, stat) + attr.encoding()
}

/// A reply of a status and what is known of the object before and after.
pub open spec fn wcc_reply(xid: u32, stat: nfsstat3, wcc: wcc_data) -> Seq<u8> {
    stat_reply(xid, stat) + wcc.encoding()
}

/// A failure after which nothing is known of the object.
pub open spec fn lost_reply(xid: u32, stat: nfsstat3) -> Seq<u8> {
    wcc_reply(xid, stat, wcc_data::unknown())
}

/// The reply of a procedure that made an object.
pub open spec fn created_reply(
    xid: u32,
    handle: Seq<u8>,
    attr: post_op_attr,
    wcc: wcc_data,
) -> Seq<u8> {
    stat_reply(xid, nfsstat3::NFS3_OK) + present_handle(handle) + attr.encoding() + wcc.encoding()
}

pub(crate) fn reply_stat(xid: u32, stat: nfsstat3) -> (out: Vec<u8>)
    ensures
        out@ == stat_reply(xid, stat),
{
    let mut out = make_success_reply(xid);
    stat.serialize(&mut out);
    out
}

pub(crate) fn reply_attr(xid: u32, stat: nfsstat3, attr: post_op_attr) -> (out: Vec<u8>)
    ensures
        out@ == attr_reply(xid, stat, attr),
{
    let mut out = reply_stat(xid, stat);
    attr.serialize(&mut out);
    out
}

pub(crate) fn reply_wcc(xid: u32, stat: nfsstat3, wcc: wcc_data) -> (out: Vec<u8>)
    ensures
        out@ == wcc_reply(xid, stat, wcc),
{
    let mut out = reply_stat(xid, stat);
    wcc.serialize(&mut out);
    out
}

pub(crate) fn reply_lost(xid: u32, stat: nfsstat3) -> (out: Vec<u8>)
    ensures
        out@ == lost_reply(xid, stat),
{
    reply_wcc(xid, stat, wcc_data::default())
}

pub(crate) fn reply_created(xid: u32, handle: nfs_fh3, attr: post_op_attr, wcc: wcc_data) -> (out:
    Vec<u8>)
    requires
        handle@.len() <= u32::MAX,
    ensures
        out@ == created_reply(xid, handle@, attr, wcc),
{
    let mut out = reply_stat(xid, nfsstat3::NFS3_OK);
    post_op_fh3::handle(handle).serialize(&mut out);
    attr.serialize(&mut out);
    wcc.serialize(&mut out);
    out
}

/// The status of a reply stands behind the head of the reply, whatever follows it.
pub proof fn lemma_status_is_found(xid: u32, stat: nfsstat3, behind: Seq<u8>)
    ensures
        (stat_reply(xid, stat) + behind).len() >= 28,
        parse_u32((stat_reply(xid, stat) + behind).skip(24)) == Ok::<(u32, Seq<u8>), XdrError>(
            (stat.number(), behind),
        ),
{
    broadcast use crate::xdr::group_xdr_lengths;

    lemma_reply_carries_its_transaction(xid, 0);
    assert((stat_reply(xid, stat) + behind).skip(24) =~= stat.encoding() + behind);
    u32_round_trip(stat.number(), behind);
}

// ------------------------------------------------------------ the null call

/// NULL does nothing: it appends a bare success to the output.
pub fn nfsproc3_null(xid: u32, output: &mut Vec<u8>)
    ensures
        final(output)@ == old(output)@ + success_reply(xid),
{
    let mut reply = make_success_reply(xid);
    output.append(&mut reply);
}

} // verus!
